//! JSON text for the few frames and bodies that the monitor sends.
//!
//! Objects are put together here field by field; only the quoting of a
//! string is left to `serde_json`.

use vstd::prelude::*;
use vstd::string::*;

verus! {

/// A text as a JSON string, quoted and escaped as `serde_json` does it.
pub uninterp spec fn json_string_of(text: Seq<char>) -> Seq<char>;

/// `serde_json::to_string` on a string slice. The result depends on the text
/// alone; it is named, not described.
#[verifier::external_body]
pub(crate) fn json_string(text: &str) -> (json: String)
    ensures
        json@ == json_string_of(text@),
{
    match serde_json::to_string(text) {
        Ok(s) => s,
        Err(_) => String::new(),
    }
}

/// A member of an object: the name, quoted as it stands, a colon, the value
/// as a JSON string.
pub open spec fn member_text(name: Seq<char>, value: Seq<char>) -> Seq<char> {
    seq!['"'] + name + seq!['"', ':'] + json_string_of(value)
}

/// Appends a member whose value is a string. The name must need no escaping.
pub fn push_member(out: &mut String, name: &str, value: &str)
    ensures
        final(out)@ == old(out)@ + member_text(name@, value@),
{
    proof {
        reveal_strlit("\"");
        reveal_strlit("\":");
        assert("\""@ =~= seq!['"']);
        assert("\":"@ =~= seq!['"', ':']);
    }
    out.append("\"");
    out.append(name);
    out.append("\":");
    let quoted = json_string(value);
    out.append(quoted.as_str());
    proof {
        assert(final(out)@ =~= old(out)@ + member_text(name@, value@));
    }
}

/// An array of JSON strings.
pub open spec fn string_array_text(items: Seq<Seq<char>>) -> Seq<char> {
    seq!['['] + string_items_text(items) + seq![']']
}

/// JSON strings separated by commas.
pub open spec fn string_items_text(items: Seq<Seq<char>>) -> Seq<char>
    decreases items.len(),
{
    if items.len() == 0 {
        Seq::empty()
    } else if items.len() == 1 {
        json_string_of(items[0])
    } else {
        string_items_text(items.drop_last()) + seq![','] + json_string_of(items.last())
    }
}

/// Appends an array of JSON strings.
pub fn push_string_array(out: &mut String, items: &Vec<String>)
    ensures
        final(out)@ == old(out)@ + string_array_text(items.deep_view()),
{
    proof {
        reveal_strlit("[");
        reveal_strlit("]");
        reveal_strlit(",");
        assert("["@ =~= seq!['[']);
        assert("]"@ =~= seq![']']);
        assert(","@ =~= seq![',']);
    }
    out.append("[");
    let ghost start = out@;
    let mut i: usize = 0;
    proof {
        assert(items.deep_view().subrange(0, 0) =~= Seq::<Seq<char>>::empty());
        assert(out@ =~= start + string_items_text(items.deep_view().subrange(0, 0)));
    }
    while i < items.len()
        invariant
            0 <= i <= items@.len(),
            items.deep_view().len() == items@.len(),
            start == old(out)@ + seq!['['],
            ","@ == seq![','],
            "]"@ == seq![']'],
            out@ == start + string_items_text(items.deep_view().subrange(0, i as int)),
        decreases items@.len() - i,
    {
        let ghost prefix = items.deep_view().subrange(0, i as int);
        let ghost next = items.deep_view().subrange(0, i + 1);
        proof {
            assert(next.drop_last() =~= prefix);
            assert(next.last() == items@[i as int]@);
        }
        if i > 0 {
            out.append(",");
        }
        let quoted = json_string(items[i].as_str());
        out.append(quoted.as_str());
        proof {
            if i == 0 {
                assert(next[0] == items@[0]@);
                assert(out@ =~= start + string_items_text(next));
            } else {
                assert(out@ =~= start + string_items_text(next));
            }
        }
        i = i + 1;
    }
    proof {
        assert(items.deep_view().subrange(0, i as int) =~= items.deep_view());
    }
    out.append("]");
    proof {
        assert(final(out)@ =~= old(out)@ + string_array_text(items.deep_view()));
    }
}

} // verus!

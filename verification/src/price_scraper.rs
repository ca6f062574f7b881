//! The target price of a window, read from the event page.
//!
//! The page embeds, for each window, the oracle price at its start as
//! `"openPrice":<number>`. The target is the last such number on the page
//! that lies in the range a BTC price can have.

use crate::fixed::{nearest_fixed_of_text, parse_fixed_nearest};
use vstd::prelude::*;
use vstd::string::*;

verus! {

/// Lowest price that counts as a BTC price: 10 000.
pub const MIN_OPEN_PRICE: i64 = 1_000_000_000_000;

/// Highest price that counts as a BTC price: 500 000.
pub const MAX_OPEN_PRICE: i64 = 50_000_000_000_000;

/// What was read from an event page.
#[derive(Debug, Clone)]
pub struct ScrapedPriceData {
    pub open_price: i64,
    pub close_price: Option<i64>,
    pub start_time: Option<String>,
    pub end_time: Option<String>,
}

/// The text that precedes a price on the page.
pub open spec fn marker() -> Seq<char> {
    "\"openPrice\":"@
}

/// The address of the event page of a market.
pub open spec fn event_page_url_text(slug: Seq<char>) -> Seq<char> {
    "https://polymarket.com/event/"@ + slug
}

/// Whether `pattern` stands in `s` at index `i`.
pub open spec fn stands_at(s: Seq<char>, pattern: Seq<char>, i: int) -> bool {
    0 <= i && i + pattern.len() <= s.len() && s.subrange(i, i + pattern.len()) == pattern
}

/// Whether a char ends a number: a comma, a closing brace or a space.
pub open spec fn ends_number(c: char) -> bool {
    c == ',' || c == '}' || c == ' '
}

/// The index of the first char at or after `from` that ends a number; the
/// length of the text where there is none.
pub open spec fn number_end(s: Seq<char>, from: int) -> int
    decreases s.len() - from,
{
    if from >= s.len() || from < 0 {
        s.len() as int
    } else if ends_number(s[from]) {
        from
    } else {
        number_end(s, from + 1)
    }
}

/// Whether a fixed-point value lies in the range of BTC prices.
pub open spec fn plausible(price: int) -> bool {
    MIN_OPEN_PRICE <= price <= MAX_OPEN_PRICE
}

/// The price that starts behind a marker at index `i`, where the marker
/// stands there and is followed by a number in range.
pub open spec fn price_at(s: Seq<char>, i: int) -> Option<i64> {
    if stands_at(s, marker(), i) {
        let from = i + marker().len();
        match nearest_fixed_of_text(s.subrange(from, number_end(s, from))) {
            Some(p) => if plausible(p) {
                Some(p as i64)
            } else {
                None
            },
            None => None,
        }
    } else {
        None
    }
}

/// The price at the last index below `n` that has one.
pub open spec fn last_price_before(s: Seq<char>, n: int) -> Option<i64>
    decreases n,
{
    if n <= 0 {
        None
    } else {
        match price_at(s, n - 1) {
            Some(p) => Some(p),
            None => last_price_before(s, n - 1),
        }
    }
}

/// The target price that a page shows: the last price in range on it.
pub open spec fn open_price_of(html: Seq<char>) -> Option<i64> {
    last_price_before(html, html.len() as int)
}

/// The chars of a text.
pub fn chars_of(text: &str) -> (v: Vec<char>)
    ensures
        v@ == text@,
{
    let mut v: Vec<char> = Vec::new();
    for c in it: text.chars()
        invariant
            it.seq() == text@,
            v@ == text@.subrange(0, it.index() as int),
    {
        proof {
            assert(v@.push(c) =~= text@.subrange(0, it.index() + 1));
        }
        v.push(c);
    }
    proof {
        assert(text@.subrange(0, text@.len() as int) =~= text@);
    }
    v
}

/// Whether `pattern` stands in `s` at index `i`.
fn stands_here(s: &Vec<char>, pattern: &Vec<char>, i: usize) -> (b: bool)
    ensures
        b == stands_at(s@, pattern@, i as int),
{
    if pattern.len() > s.len() || i > s.len() - pattern.len() {
        return false;
    }
    let mut k: usize = 0;
    while k < pattern.len()
        invariant
            0 <= k <= pattern@.len(),
            i + pattern@.len() <= s@.len() <= usize::MAX,
            forall|j: int| 0 <= j < k ==> s@[i + j] == pattern@[j],
        decreases pattern@.len() - k,
    {
        if s[i + k] != pattern[k] {
            proof {
                assert(s@.subrange(i as int, i + pattern@.len())[k as int] == s@[i + k]);
            }
            return false;
        }
        k = k + 1;
    }
    proof {
        assert(s@.subrange(i as int, i + pattern@.len()) =~= pattern@);
    }
    true
}

/// The index of the first char at or after `from` that ends a number.
fn find_number_end(s: &Vec<char>, from: usize) -> (end: usize)
    requires
        from <= s@.len(),
    ensures
        end == number_end(s@, from as int),
        from <= end <= s@.len(),
{
    let mut i: usize = from;
    while i < s.len() && !(s[i] == ',' || s[i] == '}' || s[i] == ' ')
        invariant
            from <= i <= s@.len(),
            number_end(s@, from as int) == number_end(s@, i as int),
        decreases s@.len() - i,
    {
        i = i + 1;
    }
    i
}

/// The target price that a page shows: the last `"openPrice":<number>` on it
/// whose number lies between 10 000 and 500 000.
pub fn extract_open_price_from_embedded_json(html: &str) -> (price: Option<i64>)
    ensures
        price == open_price_of(html@),
{
    let chars = chars_of(html);
    let pattern = chars_of("\"openPrice\":");
    let mut last: Option<i64> = None;
    let mut i: usize = 0;
    while i < chars.len()
        invariant
            0 <= i <= chars@.len(),
            chars@ == html@,
            pattern@ == marker(),
            last == last_price_before(html@, i as int),
        decreases chars@.len() - i,
    {
        if stands_here(&chars, &pattern, i) {
            let from = i + pattern.len();
            let end = find_number_end(&chars, from);
            let token = html.substring_char(from, end);
            match parse_fixed_nearest(token) {
                Some(p) => {
                    if MIN_OPEN_PRICE <= p && p <= MAX_OPEN_PRICE {
                        last = Some(p);
                    }
                },
                None => {},
            }
        }
        i = i + 1;
    }
    last
}

/// The address of the event page of a market.
pub fn event_page_url(slug: &str) -> (url: String)
    ensures
        url@ == event_page_url_text(slug@),
{
    let mut url = String::from_str("https://polymarket.com/event/");
    url.append(slug);
    url
}

/// What an answer of the event page gives: nothing where the status is no
/// success or the page shows no price in range, else the price.
pub fn read_event_page(status: u16, html: &str) -> (data: Option<ScrapedPriceData>)
    ensures
        data is Some <==> 200 <= status < 300 && open_price_of(html@) is Some,
        data matches Some(d) ==> Some(d.open_price) == open_price_of(html@) && d.close_price
            is None && d.start_time is None && d.end_time is None,
{
    if status < 200 || status >= 300 {
        return None;
    }
    match extract_open_price_from_embedded_json(html) {
        Some(open_price) => Some(
            ScrapedPriceData { open_price, close_price: None, start_time: None, end_time: None },
        ),
        None => None,
    }
}

/// A page shows the price that stands last on it: where a price in range
/// stands at an index and none stands behind it, that price is the target.
pub proof fn law_last_price_wins(html: Seq<char>, i: int)
    requires
        0 <= i < html.len(),
        price_at(html, i) is Some,
        forall|j: int| i < j < html.len() ==> price_at(html, j) is None,
    ensures
        open_price_of(html) == price_at(html, i),
{
    lemma_last_price_skips(html, i, html.len() as int);
}

proof fn lemma_last_price_skips(html: Seq<char>, i: int, n: int)
    requires
        0 <= i < n <= html.len(),
        price_at(html, i) is Some,
        forall|j: int| i < j < n ==> price_at(html, j) is None,
    ensures
        last_price_before(html, n) == price_at(html, i),
    decreases n - i,
{
    if n - 1 > i {
        lemma_last_price_skips(html, i, n - 1);
    }
}

/// A page without a price in range shows no target.
pub proof fn law_no_price_no_target(html: Seq<char>, n: int)
    requires
        0 <= n <= html.len(),
        forall|j: int| 0 <= j < n ==> price_at(html, j) is None,
    ensures
        last_price_before(html, n) is None,
    decreases n,
{
    if n > 0 {
        law_no_price_no_target(html, n - 1);
    }
}

/// A block of the page that may show the target price: its whole text and
/// the text of each element directly inside it, in order.
#[derive(Debug, Clone)]
pub struct PageSection {
    pub text: String,
    pub children: Vec<String>,
}

/// The words that label the target price on the page.
pub open spec fn label() -> Seq<char> {
    "price to beat"@
}

/// Whether a char is a decimal digit.
pub open spec fn is_digit(c: char) -> bool {
    c == '0' || c == '1' || c == '2' || c == '3' || c == '4' || c == '5' || c == '6' || c == '7'
        || c == '8' || c == '9'
}

/// Whether a char can be part of a number: a digit, a point or a minus sign.
pub open spec fn is_price_char(c: char) -> bool {
    is_digit(c) || c == '.' || c == '-'
}

/// The chars of a text that can be part of a number, in order.
pub open spec fn price_chars(s: Seq<char>) -> Seq<char>
    decreases s.len(),
{
    if s.len() == 0 {
        Seq::empty()
    } else if is_price_char(s.last()) {
        price_chars(s.drop_last()).push(s.last())
    } else {
        price_chars(s.drop_last())
    }
}

/// The price that a text such as `$12,345.67` shows: what its digits, points
/// and minus signs read as, where they read as a number.
pub open spec fn price_of_text(s: Seq<char>) -> Option<i64> {
    if price_chars(s).len() == 0 {
        None
    } else {
        match nearest_fixed_of_text(price_chars(s)) {
            Some(p) => Some(p as i64),
            None => None,
        }
    }
}

/// Whether a char can stand inside a written price: a digit, a comma or a
/// point.
pub open spec fn is_run_char(c: char) -> bool {
    is_digit(c) || c == ',' || c == '.'
}

/// The index of the first char at or after `from` that cannot stand inside a
/// written price; the length of the text where there is none.
pub open spec fn run_end(s: Seq<char>, from: int) -> int
    decreases s.len() - from,
{
    if from >= s.len() || from < 0 {
        s.len() as int
    } else if !is_run_char(s[from]) {
        from
    } else {
        run_end(s, from + 1)
    }
}

/// Where the scan for written prices goes on after looking at index `i`: a
/// dollar sign or a digit starts a written price, which is passed over as a
/// whole; any other char is passed over alone.
pub open spec fn scan_next(s: Seq<char>, i: int) -> int {
    if s[i] == '$' {
        run_end(s, i + 1)
    } else if is_digit(s[i]) {
        run_end(s, i)
    } else {
        i + 1
    }
}

/// The price that the scan finds at index `i`, where a written price starts
/// there and reads as a number.
pub open spec fn scan_price(s: Seq<char>, i: int) -> Option<i64> {
    if s[i] == '$' || is_digit(s[i]) {
        price_of_text(s.subrange(i, scan_next(s, i)))
    } else {
        None
    }
}

/// The last price that the scan finds from index `i` on; `last` where it
/// finds none.
pub open spec fn last_price_in(s: Seq<char>, i: int, last: Option<i64>) -> Option<i64>
    decreases s.len() - i,
    when 0 <= i
    via last_price_in_decreases
{
    if i >= s.len() {
        last
    } else {
        last_price_in(
            s,
            scan_next(s, i),
            match scan_price(s, i) {
                Some(p) => Some(p),
                None => last,
            },
        )
    }
}

#[via_fn]
proof fn last_price_in_decreases(s: Seq<char>, i: int, last: Option<i64>) {
    if i < s.len() {
        lemma_run_end_bounds(s, i);
        lemma_run_end_bounds(s, i + 1);
    }
}

proof fn lemma_run_end_bounds(s: Seq<char>, from: int)
    requires
        0 <= from <= s.len(),
    ensures
        from <= run_end(s, from) <= s.len(),
        from < s.len() && is_run_char(s[from]) ==> run_end(s, from) > from,
    decreases s.len() - from,
{
    if from < s.len() && is_run_char(s[from]) {
        lemma_run_end_bounds(s, from + 1);
    }
}

/// Whether `pattern` stands somewhere in `s`.
pub open spec fn holds(s: Seq<char>, pattern: Seq<char>) -> bool {
    exists|i: int| stands_at(s, pattern, i)
}

/// A text in lower case, as the standard library has it.
pub uninterp spec fn lowercase_of(text: Seq<char>) -> Seq<char>;

/// `str::to_lowercase` of the standard library. The result depends on the
/// text alone; it is named, not described.
#[verifier::external_body]
fn lowercase(text: &str) -> (lower: String)
    ensures
        lower@ == lowercase_of(text@),
{
    text.to_lowercase()
}

/// The price that the elements inside a block show: that of the last one
/// whose text reads as a price. The label itself reads as none.
pub open spec fn child_price(children: Seq<String>) -> Option<i64>
    decreases children.len(),
{
    if children.len() == 0 {
        None
    } else if price_of_text(children.last()@) is Some {
        price_of_text(children.last()@)
    } else {
        child_price(children.drop_last())
    }
}

/// The price that a block shows: that of its elements, else the last written
/// price in its text.
pub open spec fn section_price(section: &PageSection) -> Option<i64> {
    match child_price(section.children@) {
        Some(p) => Some(p),
        None => last_price_in(section.text@, 0, None),
    }
}

/// Whether a block shows a target price: its text, in lower case, holds the
/// label, and it shows a price.
pub open spec fn shows_target(section: &PageSection) -> bool {
    holds(lowercase_of(section.text@), label()) && section_price(section) is Some
}

/// The target price that the blocks of a page show: that of the first block
/// that shows one.
pub open spec fn price_to_beat_of(sections: Seq<PageSection>) -> Option<i64>
    decreases sections.len(),
{
    if sections.len() == 0 {
        None
    } else if shows_target(&sections.first()) {
        section_price(&sections.first())
    } else {
        price_to_beat_of(sections.drop_first())
    }
}

/// The one-char text of a char that can be part of a number.
fn price_char_str(c: char) -> (s: Option<&'static str>)
    ensures
        s is Some <==> is_price_char(c),
        s matches Some(t) ==> t@ == seq![c],
{
    proof {
        reveal_strlit("0");
        reveal_strlit("1");
        reveal_strlit("2");
        reveal_strlit("3");
        reveal_strlit("4");
        reveal_strlit("5");
        reveal_strlit("6");
        reveal_strlit("7");
        reveal_strlit("8");
        reveal_strlit("9");
        reveal_strlit(".");
        reveal_strlit("-");
    }
    let s = if c == '0' {
        Some("0")
    } else if c == '1' {
        Some("1")
    } else if c == '2' {
        Some("2")
    } else if c == '3' {
        Some("3")
    } else if c == '4' {
        Some("4")
    } else if c == '5' {
        Some("5")
    } else if c == '6' {
        Some("6")
    } else if c == '7' {
        Some("7")
    } else if c == '8' {
        Some("8")
    } else if c == '9' {
        Some("9")
    } else if c == '.' {
        Some(".")
    } else if c == '-' {
        Some("-")
    } else {
        None
    };
    proof {
        if s is Some {
            assert(s.unwrap()@ =~= seq![c]);
        }
    }
    s
}

fn is_digit_char(c: char) -> (b: bool)
    ensures
        b == is_digit(c),
{
    c == '0' || c == '1' || c == '2' || c == '3' || c == '4' || c == '5' || c == '6' || c == '7'
        || c == '8' || c == '9'
}

/// The price that the chars of a text show.
fn price_of_chars(chars: &Vec<char>) -> (price: Option<i64>)
    ensures
        price == price_of_text(chars@),
{
    let mut cleaned = String::new();
    let mut i: usize = 0;
    proof {
        assert(chars@.subrange(0, 0) =~= Seq::<char>::empty());
    }
    while i < chars.len()
        invariant
            0 <= i <= chars@.len(),
            cleaned@ == price_chars(chars@.subrange(0, i as int)),
        decreases chars@.len() - i,
    {
        proof {
            let next = chars@.subrange(0, i + 1);
            assert(next.drop_last() =~= chars@.subrange(0, i as int));
            assert(next.last() == chars@[i as int]);
        }
        match price_char_str(chars[i]) {
            Some(t) => {
                cleaned.append(t);
                proof {
                    assert(cleaned@ =~= price_chars(chars@.subrange(0, i as int)).push(
                        chars@[i as int],
                    ));
                }
            },
            None => {},
        }
        i = i + 1;
    }
    proof {
        assert(chars@.subrange(0, i as int) =~= chars@);
    }
    if cleaned.as_str().is_empty() {
        None
    } else {
        parse_fixed_nearest(cleaned.as_str())
    }
}

/// The price that a text such as `$12,345.67` or `12345.67` shows.
pub fn parse_price_string(text: &str) -> (price: Option<i64>)
    ensures
        price == price_of_text(text@),
{
    let chars = chars_of(text);
    price_of_chars(&chars)
}

/// The index of the first char at or after `from` that cannot stand inside a
/// written price.
fn find_run_end(s: &Vec<char>, from: usize) -> (end: usize)
    requires
        from <= s@.len(),
    ensures
        end == run_end(s@, from as int),
        from <= end <= s@.len(),
{
    let mut i: usize = from;
    while i < s.len() && (is_digit_char(s[i]) || s[i] == ',' || s[i] == '.')
        invariant
            from <= i <= s@.len(),
            run_end(s@, from as int) == run_end(s@, i as int),
        decreases s@.len() - i,
    {
        i = i + 1;
    }
    i
}

/// The chars of a text between two indices.
fn chars_between(s: &Vec<char>, from: usize, to: usize) -> (part: Vec<char>)
    requires
        from <= to <= s@.len(),
    ensures
        part@ == s@.subrange(from as int, to as int),
{
    let mut part: Vec<char> = Vec::new();
    let mut i: usize = from;
    while i < to
        invariant
            from <= i <= to <= s@.len(),
            part@ == s@.subrange(from as int, i as int),
        decreases to - i,
    {
        part.push(s[i]);
        proof {
            assert(part@ =~= s@.subrange(from as int, i + 1));
        }
        i = i + 1;
    }
    part
}

/// The last written price in a text that reads as a number.
pub fn extract_price_from_text(text: &str) -> (price: Option<i64>)
    ensures
        price == last_price_in(text@, 0, None),
{
    let chars = chars_of(text);
    let mut last: Option<i64> = None;
    let mut i: usize = 0;
    while i < chars.len()
        invariant
            0 <= i <= chars@.len(),
            chars@ == text@,
            last_price_in(text@, 0, None) == last_price_in(text@, i as int, last),
        decreases chars@.len() - i,
    {
        let c = chars[i];
        if c == '$' || is_digit_char(c) {
            let from = if c == '$' {
                i + 1
            } else {
                i
            };
            proof {
                lemma_run_end_bounds(chars@, from as int);
            }
            let end = find_run_end(&chars, from);
            let segment = chars_between(&chars, i, end);
            match price_of_chars(&segment) {
                Some(p) => {
                    last = Some(p);
                },
                None => {},
            }
            i = end;
        } else {
            i = i + 1;
        }
    }
    last
}

/// Whether `pattern` stands somewhere in `text`.
pub fn contains_text(text: &str, pattern: &str) -> (found: bool)
    ensures
        found == holds(text@, pattern@),
{
    let s = chars_of(text);
    let p = chars_of(pattern);
    let mut i: usize = 0;
    while i < s.len()
        invariant
            0 <= i <= s@.len(),
            s@ == text@,
            p@ == pattern@,
            forall|k: int| 0 <= k < i ==> !stands_at(text@, pattern@, k),
        decreases s@.len() - i,
    {
        if stands_here(&s, &p, i) {
            return true;
        }
        i = i + 1;
    }
    // an empty pattern stands at the end of every text
    let at_end = stands_here(&s, &p, i);
    proof {
        if !at_end {
            assert forall|k: int| !stands_at(text@, pattern@, k) by {
                if k > s@.len() {
                }
            }
        }
    }
    at_end
}

/// The price that the elements inside a block show.
pub fn extract_price_from_children(children: &Vec<String>) -> (price: Option<i64>)
    ensures
        price == child_price(children@),
{
    let mut i: usize = children.len();
    proof {
        assert(children@.subrange(0, i as int) =~= children@);
    }
    while i > 0
        invariant
            0 <= i <= children@.len(),
            child_price(children@) == child_price(children@.subrange(0, i as int)),
        decreases i,
    {
        proof {
            let part = children@.subrange(0, i as int);
            assert(part.last() == children@[i - 1]);
            assert(part.drop_last() =~= children@.subrange(0, i - 1));
        }
        match parse_price_string(children[i - 1].as_str()) {
            Some(p) => {
                return Some(p);
            },
            None => {},
        }
        i = i - 1;
    }
    proof {
        assert(children@.subrange(0, 0) =~= Seq::<String>::empty());
    }
    None
}

/// The target price that the blocks of a page show: the first block whose
/// text holds the label, in any case of letters, and that shows a price,
/// gives it.
pub fn extract_price_to_beat_from_sections(sections: &Vec<PageSection>) -> (price: Option<i64>)
    ensures
        price == price_to_beat_of(sections@),
{
    let mut i: usize = 0;
    proof {
        assert(sections@.subrange(0, sections@.len() as int) =~= sections@);
    }
    while i < sections.len()
        invariant
            0 <= i <= sections@.len(),
            price_to_beat_of(sections@) == price_to_beat_of(
                sections@.subrange(i as int, sections@.len() as int),
            ),
        decreases sections@.len() - i,
    {
        proof {
            let rest = sections@.subrange(i as int, sections@.len() as int);
            assert(rest.first() == sections@[i as int]);
            assert(rest.drop_first() =~= sections@.subrange(i + 1, sections@.len() as int));
        }
        let section = &sections[i];
        let lower = lowercase(section.text.as_str());
        if contains_text(lower.as_str(), "price to beat") {
            let found = match extract_price_from_children(&section.children) {
                Some(p) => Some(p),
                None => extract_price_from_text(section.text.as_str()),
            };
            if found.is_some() {
                return found;
            }
        }
        i = i + 1;
    }
    proof {
        assert(sections@.subrange(i as int, sections@.len() as int) =~= Seq::<
            PageSection,
        >::empty());
    }
    None
}

/// What the blocks of an event page give where its embedded data shows no
/// price.
pub fn read_event_page_sections(sections: &Vec<PageSection>) -> (data: Option<ScrapedPriceData>)
    ensures
        data is Some <==> price_to_beat_of(sections@) is Some,
        data matches Some(d) ==> Some(d.open_price) == price_to_beat_of(sections@) && d.close_price
            is None && d.start_time is None && d.end_time is None,
{
    match extract_price_to_beat_from_sections(sections) {
        Some(open_price) => Some(
            ScrapedPriceData { open_price, close_price: None, start_time: None, end_time: None },
        ),
        None => None,
    }
}

} // verus!

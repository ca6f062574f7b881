//! The reference-price feed: the latest oracle price of BTC/USD.
//!
//! The price is the fixed-point value nearest to the decimal text of the
//! message's value; times are milliseconds since the epoch.

use crate::fixed::{nearest_fixed_of_text, parse_fixed_nearest};
use crate::json::{member_text, push_member};
use crate::stream::StreamAction;
use vstd::prelude::*;
use vstd::string::*;

verus! {

/// One subscription of the subscribe frame.
#[derive(Debug, Clone)]
pub struct Subscription {
    pub topic: String,
    pub sub_type: String,
    pub filters: String,
}

/// The frame that subscribes to the feed.
#[derive(Debug, Clone)]
pub struct SubscribeMessage {
    pub action: String,
    pub subscriptions: Vec<Subscription>,
}

/// The payload of a price message. The value is the decimal text of the
/// message's number.
#[derive(Debug, Clone)]
pub struct ChainlinkPayload {
    pub symbol: Option<String>,
    pub timestamp: Option<i64>,
    pub value: Option<String>,
}

/// A message of the feed.
#[derive(Debug, Clone)]
pub struct RtdsMessage {
    pub topic: Option<String>,
    pub msg_type: Option<String>,
    pub timestamp: Option<i64>,
    pub payload: Option<ChainlinkPayload>,
}

/// The latest price and when it was published.
#[derive(Debug, Clone, Copy, PartialEq, Eq, Structural)]
pub struct ChainlinkPriceState {
    pub btc_price: Option<i64>,
    pub timestamp_ms: i64,
}

/// The price that a message carries, where its value is a decimal that fits.
pub open spec fn price_of(msg: &RtdsMessage) -> Option<i64> {
    match msg.payload {
        Some(p) => match p.value {
            Some(text) => match nearest_fixed_of_text(text@) {
                Some(v) => Some(v as i64),
                None => None,
            },
            None => None,
        },
        None => None,
    }
}

/// The time of a message that carries a price: that of its payload, else the
/// time of receipt.
pub open spec fn time_of(msg: &RtdsMessage, now_ms: i64) -> i64 {
    match msg.payload {
        Some(p) => match p.timestamp {
            Some(t) => t,
            None => now_ms,
        },
        None => now_ms,
    }
}

/// The state after a message received at `now_ms`: a message with a price
/// replaces price and time, any other message changes nothing.
pub open spec fn after_message(s: ChainlinkPriceState, msg: &RtdsMessage, now_ms: i64) -> ChainlinkPriceState {
    match price_of(msg) {
        Some(price) => ChainlinkPriceState {
            btc_price: Some(price),
            timestamp_ms: time_of(msg, now_ms),
        },
        None => s,
    }
}

/// The state after a price published at `timestamp_ms`.
pub open spec fn after_price(price: i64, timestamp_ms: i64) -> ChainlinkPriceState {
    ChainlinkPriceState { btc_price: Some(price), timestamp_ms }
}

/// What to do when the keepalive timer fires and the ping has been tried: go
/// on where it was sent, leave the connection where it was not.
pub open spec fn after_ping(sent: bool) -> StreamAction {
    if sent {
        StreamAction::Continue
    } else {
        StreamAction::Disconnect
    }
}

/// The reference-price component.
pub struct ChainlinkService {
    price_state: ChainlinkPriceState,
    running: bool,
}

impl ChainlinkService {
    /// The latest price and its time.
    pub closed spec fn state(&self) -> ChainlinkPriceState {
        self.price_state
    }

    /// Whether the component has been started and not stopped.
    pub closed spec fn is_running(&self) -> bool {
        self.running
    }

    /// A component that has seen no price.
    pub fn new() -> (s: Self)
        ensures
            s.state().btc_price is None,
            s.state().timestamp_ms == 0,
            !s.is_running(),
    {
        ChainlinkService {
            price_state: ChainlinkPriceState { btc_price: None, timestamp_ms: 0 },
            running: false,
        }
    }

    /// The latest price.
    pub fn get_btc_price(&self) -> (p: Option<i64>)
        ensures
            p == self.state().btc_price,
    {
        self.price_state.btc_price
    }

    /// The latest price and its time.
    pub fn get_price_state(&self) -> (s: ChainlinkPriceState)
        ensures
            s == self.state(),
    {
        self.price_state
    }

    /// Marks the component as running.
    pub fn start(&mut self)
        ensures
            final(self).is_running(),
            final(self).state() == old(self).state(),
    {
        self.running = true;
    }

    /// Marks the component as stopped.
    pub fn stop(&mut self)
        ensures
            !final(self).is_running(),
            final(self).state() == old(self).state(),
    {
        self.running = false;
    }

    /// Whether the component is running.
    pub fn running(&self) -> (b: bool)
        ensures
            b == self.is_running(),
    {
        self.running
    }

    /// The frame to send after connecting: one subscription to the oracle
    /// prices, any type, filtered to BTC/USD.
    pub fn subscription() -> (frame: SubscribeMessage)
        ensures
            frame.action@ == "subscribe"@,
            frame.subscriptions@.len() == 1,
            frame.subscriptions@[0].topic@ == "crypto_prices_chainlink"@,
            frame.subscriptions@[0].sub_type@ == "*"@,
            frame.subscriptions@[0].filters@ == "{\"symbol\":\"btc/usd\"}"@,
    {
        let mut subscriptions: Vec<Subscription> = Vec::new();
        subscriptions.push(
            Subscription {
                topic: String::from_str("crypto_prices_chainlink"),
                sub_type: String::from_str("*"),
                filters: String::from_str("{\"symbol\":\"btc/usd\"}"),
            },
        );
        SubscribeMessage { action: String::from_str("subscribe"), subscriptions }
    }

    /// Takes in a price published at `timestamp_ms`.
    pub fn set_price(&mut self, price: i64, timestamp_ms: i64)
        ensures
            final(self).state() == after_price(price, timestamp_ms),
            final(self).is_running() == old(self).is_running(),
    {
        self.price_state = ChainlinkPriceState { btc_price: Some(price), timestamp_ms };
    }

    /// Takes in a message received at `now_ms`.
    pub fn handle_message(&mut self, msg: &RtdsMessage, now_ms: i64)
        ensures
            final(self).state() == after_message(old(self).state(), msg, now_ms),
            final(self).is_running() == old(self).is_running(),
    {
        match &msg.payload {
            Some(payload) => match &payload.value {
                Some(text) => match parse_fixed_nearest(text.as_str()) {
                    Some(price) => {
                        let t = match payload.timestamp {
                            Some(t) => t,
                            None => now_ms,
                        };
                        self.set_price(price, t);
                    },
                    None => {},
                },
                None => {},
            },
            None => {},
        }
    }

    /// What to do after the keepalive ping was tried.
    pub fn on_ping_sent(sent: bool) -> (action: StreamAction)
        ensures
            action == after_ping(sent),
    {
        if sent {
            StreamAction::Continue
        } else {
            StreamAction::Disconnect
        }
    }
}

/// The address of the feed.
pub fn feed_url() -> (url: &'static str)
    ensures
        url@ == "wss://ws-live-data.polymarket.com"@,
{
    "wss://ws-live-data.polymarket.com"
}

/// The JSON text of one subscription.
pub open spec fn subscription_json(sub: &Subscription) -> Seq<char> {
    seq!['{'] + member_text("topic"@, sub.topic@) + seq![','] + member_text("type"@, sub.sub_type@)
        + seq![','] + member_text("filters"@, sub.filters@) + seq!['}']
}

/// JSON texts of subscriptions, separated by commas.
pub open spec fn subscriptions_json(subs: Seq<Subscription>) -> Seq<char>
    decreases subs.len(),
{
    if subs.len() == 0 {
        Seq::empty()
    } else if subs.len() == 1 {
        subscription_json(&subs[0])
    } else {
        subscriptions_json(subs.drop_last()) + seq![','] + subscription_json(&subs.last())
    }
}

/// The JSON text of a subscribe frame.
pub open spec fn subscribe_json(frame: &SubscribeMessage) -> Seq<char> {
    seq!['{'] + member_text("action"@, frame.action@) + ",\"subscriptions\":["@ + subscriptions_json(
        frame.subscriptions@,
    ) + "]}"@
}

impl Subscription {
    /// The JSON text of the subscription.
    pub fn to_json(&self) -> (json: String)
        ensures
            json@ == subscription_json(self),
    {
        proof {
            reveal_strlit("{");
            reveal_strlit("}");
            reveal_strlit(",");
            assert("{"@ =~= seq!['{']);
            assert("}"@ =~= seq!['}']);
            assert(","@ =~= seq![',']);
        }
        let mut json = String::from_str("{");
        push_member(&mut json, "topic", self.topic.as_str());
        json.append(",");
        push_member(&mut json, "type", self.sub_type.as_str());
        json.append(",");
        push_member(&mut json, "filters", self.filters.as_str());
        json.append("}");
        proof {
            assert(json@ =~= subscription_json(self));
        }
        json
    }
}

impl SubscribeMessage {
    /// The JSON text of the frame.
    pub fn to_json(&self) -> (json: String)
        ensures
            json@ == subscribe_json(self),
    {
        proof {
            reveal_strlit("{");
            reveal_strlit(",");
            assert("{"@ =~= seq!['{']);
            assert(","@ =~= seq![',']);
        }
        let mut json = String::from_str("{");
        push_member(&mut json, "action", self.action.as_str());
        json.append(",\"subscriptions\":[");
        let ghost start = json@;
        let mut i: usize = 0;
        proof {
            assert(self.subscriptions@.subrange(0, 0) =~= Seq::<Subscription>::empty());
            assert(json@ =~= start + subscriptions_json(self.subscriptions@.subrange(0, 0)));
        }
        while i < self.subscriptions.len()
            invariant
                0 <= i <= self.subscriptions@.len(),
                ","@ == seq![','],
                start == seq!['{'] + member_text("action"@, self.action@)
                    + ",\"subscriptions\":["@,
                json@ == start + subscriptions_json(self.subscriptions@.subrange(0, i as int)),
            decreases self.subscriptions@.len() - i,
        {
            let ghost next = self.subscriptions@.subrange(0, i + 1);
            proof {
                assert(next.drop_last() =~= self.subscriptions@.subrange(0, i as int));
                assert(next.last() == self.subscriptions@[i as int]);
            }
            if i > 0 {
                json.append(",");
            }
            let one = self.subscriptions[i].to_json();
            json.append(one.as_str());
            proof {
                if i == 0 {
                    assert(next[0] == self.subscriptions@[0]);
                }
                assert(json@ =~= start + subscriptions_json(next));
            }
            i = i + 1;
        }
        proof {
            assert(self.subscriptions@.subrange(0, i as int) =~= self.subscriptions@);
        }
        json.append("]}");
        proof {
            assert(json@ =~= subscribe_json(self));
        }
        json
    }
}

impl Default for ChainlinkService {
    fn default() -> (s: Self)
        ensures
            s.state().btc_price is None,
            !s.is_running(),
    {
        ChainlinkService::new()
    }
}

} // verus!

//! What scripts can ask of the host beyond the registry and the windows:
//! stores with subscribers, random tokens, HTML escaping, and the reading of
//! the options with which windows are claimed.

use rand::distributions::{Alphanumeric, DistString};
use vstd::prelude::*;
use vstd::string::*;
use crate::geometry::{
    parse_geometry, AlignedGeometry, CallbackId, GeometryParseError, MinGeometry,
};
use crate::text::{chars_of, push_char};

verus! {

/// Time that a window is given to appear where the script names none, in
/// milliseconds.
pub const DEFAULT_CLAIM_TIMEOUT_MS: u64 = 250;

/// Time between two looks for a window to claim, in milliseconds.
pub const CLAIM_POLL_INTERVAL_MS: u64 = 50;

/// Whether `c` is a letter of the Latin alphabet or a decimal digit.
pub open spec fn is_alphanumeric(c: char) -> bool {
    ('A' <= c && c <= 'Z') || ('a' <= c && c <= 'z') || ('0' <= c && c <= '9')
}

/// A random text of `num_chars` characters.
///
/// Trusted: `Alphanumeric.sample_string` of the rand crate with the thread's
/// generator, which gives a text of exactly the length asked for, each
/// character drawn from the 26 capital letters, the 26 small letters and the
/// 10 digits. Which characters come is left open.
#[verifier::external_body]
fn sample_alphanumeric(num_chars: usize) -> (r: String)
    ensures
        r@.len() == num_chars,
        forall|i: int| 0 <= i < r@.len() ==> is_alphanumeric(#[trigger] r@[i]),
{
    Alphanumeric.sample_string(&mut rand::thread_rng(), num_chars)
}

/// A random token of `num_chars` letters and digits.
pub fn generate_token(num_chars: u8) -> (r: String)
    ensures
        r@.len() == num_chars,
        forall|i: int| 0 <= i < r@.len() ==> is_alphanumeric(#[trigger] r@[i]),
{
    sample_alphanumeric(num_chars as usize)
}

/// What a character becomes in HTML text: the five characters that HTML
/// reads as markup become entities, every other stays.
pub open spec fn escaped_char(c: char) -> Seq<char> {
    if c == '&' {
        "&amp;"@
    } else if c == '<' {
        "&lt;"@
    } else if c == '>' {
        "&gt;"@
    } else if c == '"' {
        "&quot;"@
    } else if c == '\'' {
        "&#039;"@
    } else {
        seq![c]
    }
}

/// A text with each of its characters escaped for HTML.
pub open spec fn escaped_text(s: Seq<char>) -> Seq<char>
    decreases s.len(),
{
    if s.len() == 0 {
        Seq::empty()
    } else {
        escaped_text(s.drop_last()) + escaped_char(s.last())
    }
}

/// Escapes a text for HTML.
pub fn escape_html(unescaped: &str) -> (r: String)
    ensures
        r@ == escaped_text(unescaped@),
{
    let v = chars_of(unescaped);
    let mut r = String::new();
    let mut i: usize = 0;
    assert(v@.take(0) =~= Seq::<char>::empty());
    while i < v.len()
        invariant
            i <= v.len(),
            r@ == escaped_text(v@.take(i as int)),
        decreases v.len() - i,
    {
        let c = v[i];
        proof {
            assert(v@.take(i + 1).drop_last() =~= v@.take(i as int));
            assert(v@.take(i + 1).last() == c);
        }
        let ghost before = r@;
        if c == '&' {
            r.append("&amp;");
        } else if c == '<' {
            r.append("&lt;");
        } else if c == '>' {
            r.append("&gt;");
        } else if c == '"' {
            r.append("&quot;");
        } else if c == '\'' {
            r.append("&#039;");
        } else {
            push_char(&mut r, c);
            assert(r@ =~= before + seq![c]);
        }
        i += 1;
    }
    assert(v@.take(v.len() as int) =~= v@);
    r
}

/// A cell that scripts read and write, with the callbacks to tell of each
/// new value. The value itself stays with the scripting engine.
#[derive(Debug, Clone, PartialEq, Eq)]
pub struct Store {
    subscriber_callbacks: Vec<CallbackId>,
}

/// A subscription to a store: the callback that was subscribed.
#[derive(Debug, PartialEq, Eq, Copy, Clone, Structural)]
pub struct StoreSubscription {
    pub callback_key: CallbackId,
}

impl StoreSubscription {
    /// The subscription of a callback.
    pub fn new(callback_key: CallbackId) -> (r: StoreSubscription)
        ensures
            r.callback_key == callback_key,
    {
        StoreSubscription { callback_key }
    }
}

impl View for Store {
    type V = Seq<CallbackId>;

    closed spec fn view(&self) -> Seq<CallbackId> {
        self.subscriber_callbacks@
    }
}

/// `s` without its elements equal to `x`.
pub open spec fn without(s: Seq<CallbackId>, x: CallbackId) -> Seq<CallbackId>
    decreases s.len(),
{
    if s.len() == 0 {
        Seq::empty()
    } else if s.last() == x {
        without(s.drop_last(), x)
    } else {
        without(s.drop_last(), x).push(s.last())
    }
}

/// `without` holds everything of `s` but `x`, and holds nothing twice where
/// `s` does not.
pub proof fn lemma_without(s: Seq<CallbackId>, x: CallbackId)
    ensures
        !without(s, x).contains(x),
        forall|y: CallbackId| y != x ==> (#[trigger] without(s, x).contains(y) <==> s.contains(y)),
        s.no_duplicates() ==> without(s, x).no_duplicates(),
        !s.contains(x) ==> without(s, x) == s,
    decreases s.len(),
{
    let out = without(s, x);
    if s.len() > 0 {
        let init = s.drop_last();
        let head = without(init, x);
        lemma_without(init, x);
        assert forall|y: CallbackId| y != x implies (#[trigger] out.contains(y) <==> s.contains(
            y,
        )) by {
            if out.contains(y) {
                let n = choose|n: int| 0 <= n < out.len() && out[n] == y;
                if n < head.len() {
                    assert(head[n] == y);
                    assert(head.contains(y));
                    let q = choose|q: int| 0 <= q < init.len() && init[q] == y;
                    assert(s[q] == y);
                } else {
                    assert(s[s.len() - 1] == y);
                }
            }
            if s.contains(y) {
                let q = choose|q: int| 0 <= q < s.len() && s[q] == y;
                if q < init.len() {
                    assert(init[q] == y);
                    assert(init.contains(y));
                    assert(without(init, x).contains(y));
                    let n = choose|n: int| 0 <= n < head.len() && head[n] == y;
                    assert(out[n] == y);
                } else {
                    assert(out[out.len() - 1] == y);
                }
            }
        }
        if out.contains(x) {
            let n = choose|n: int| 0 <= n < out.len() && out[n] == x;
            if n < head.len() {
                assert(head[n] == x);
                assert(head.contains(x));
            }
        }
        if s.no_duplicates() {
            assert forall|a: int, b: int| 0 <= a < init.len() && 0 <= b < init.len() && a
                != b implies init[a] != init[b] by {
                assert(s[a] != s[b]);
            }
            assert(init.no_duplicates());
            if s.last() != x {
                assert forall|a: int, b: int| 0 <= a < out.len() && 0 <= b < out.len() && a
                    != b implies out[a] != out[b] by {
                    if a < head.len() && b < head.len() {
                        assert(head[a] != head[b]);
                    } else {
                        let inner = if a < head.len() {
                            a
                        } else {
                            b
                        };
                        assert(head.contains(head[inner]));
                        assert(init.contains(head[inner]));
                        let q = choose|q: int| 0 <= q < init.len() && init[q] == head[inner];
                        assert(s[q] != s[s.len() - 1]);
                    }
                }
            }
        }
        if !s.contains(x) {
            assert(s[s.len() - 1] != x);
            assert(!init.contains(x)) by {
                if init.contains(x) {
                    let q = choose|q: int| 0 <= q < init.len() && init[q] == x;
                    assert(s[q] == x);
                }
            }
            assert(out =~= s);
        }
    } else {
        assert(out =~= s);
    }
}

impl Store {
    /// Whether no callback is subscribed twice.
    pub open spec fn wf(&self) -> bool {
        self@.no_duplicates()
    }

    /// A store without subscribers.
    pub fn new() -> (r: Store)
        ensures
            r@ == Seq::<CallbackId>::empty(),
            r.wf(),
    {
        Store { subscriber_callbacks: Vec::new() }
    }

    /// Whether the callback is subscribed.
    pub fn is_subscribed(&self, callback_key: CallbackId) -> (r: bool)
        ensures
            r == self@.contains(callback_key),
    {
        let mut i: usize = 0;
        while i < self.subscriber_callbacks.len()
            invariant
                i <= self.subscriber_callbacks.len(),
                forall|k: int| 0 <= k < i ==> self@[k] != callback_key,
            decreases self.subscriber_callbacks.len() - i,
        {
            if self.subscriber_callbacks[i] == callback_key {
                return true;
            }
            i += 1;
        }
        false
    }

    /// Subscribes a callback: it is told of every value set from now on. A
    /// callback that is subscribed already stays subscribed once.
    pub fn subscribe(&mut self, callback_key: CallbackId) -> (r: StoreSubscription)
        requires
            old(self).wf(),
        ensures
            final(self).wf(),
            r.callback_key == callback_key,
            final(self)@ == if old(self)@.contains(callback_key) {
                old(self)@
            } else {
                old(self)@.push(callback_key)
            },
    {
        if !self.is_subscribed(callback_key) {
            self.subscriber_callbacks.push(callback_key);
            assert forall|a: int, b: int| 0 <= a < self@.len() && 0 <= b < self@.len() && a
                != b implies self@[a] != self@[b] by {
                if a < old(self)@.len() && b < old(self)@.len() {
                    assert(old(self)@[a] != old(self)@[b]);
                } else {
                    let inner = if a < old(self)@.len() {
                        a
                    } else {
                        b
                    };
                    assert(old(self)@.contains(old(self)@[inner]));
                }
            }
        }
        StoreSubscription { callback_key }
    }

    /// Ends a subscription: its callback is told of no value set from now
    /// on. Ending a subscription that is not there changes nothing.
    pub fn unsubscribe(&mut self, subscription: StoreSubscription)
        requires
            old(self).wf(),
        ensures
            final(self).wf(),
            final(self)@ == without(old(self)@, subscription.callback_key),
    {
        let mut kept: Vec<CallbackId> = Vec::new();
        let mut i: usize = 0;
        assert(self@.take(0) =~= Seq::<CallbackId>::empty());
        while i < self.subscriber_callbacks.len()
            invariant
                i <= self.subscriber_callbacks.len(),
                kept@ == without(self@.take(i as int), subscription.callback_key),
            decreases self.subscriber_callbacks.len() - i,
        {
            proof {
                assert(self@.take(i + 1).drop_last() =~= self@.take(i as int));
                assert(self@.take(i + 1).last() == self@[i as int]);
            }
            if self.subscriber_callbacks[i] != subscription.callback_key {
                kept.push(self.subscriber_callbacks[i]);
            }
            i += 1;
        }
        proof {
            assert(self@.take(self.subscriber_callbacks.len() as int) =~= self@);
            lemma_without(self@, subscription.callback_key);
        }
        self.subscriber_callbacks = kept;
    }

    /// The callbacks to tell of a value that was just set: those subscribed
    /// at this moment, each once. What the callbacks subscribe or end while
    /// they are told changes nothing about this list.
    pub fn set(&self) -> (r: Vec<CallbackId>)
        requires
            self.wf(),
        ensures
            r@ == self@,
            r@.no_duplicates(),
    {
        self.subscriber_callbacks.clone()
    }
}

/// What a script handed in for the minimum placement of a window.
#[derive(Debug, Clone, PartialEq, Eq)]
pub enum MinGeometryValue {
    /// Nothing.
    Absent,
    /// A text, to be read as a geometry.
    Text(String),
    /// A function, to be asked at each use.
    Function { callback_key: CallbackId },
    /// Anything else.
    Other,
}

/// What is to be said of the value handed in for a minimum placement.
#[derive(Debug, PartialEq, Eq, Copy, Clone, Structural)]
pub enum MinGeometryRemark {
    /// The value was used.
    Accepted,
    /// The text is no geometry, for the given reason; the default is used.
    InvalidText(GeometryParseError),
    /// The value is neither a text nor a function; the default is used.
    UnexpectedValue,
}

/// The default minimum placement.
pub open spec fn default_min_geometry() -> MinGeometry {
    MinGeometry::Fixed(
        AlignedGeometry {
            x_offset: 0,
            y_offset: 0,
            width: 480,
            height: 360,
            alignment: crate::geometry::Alignment::BottomRight,
        },
    )
}

/// The minimum placement that a value stands for, and what is to be said of
/// the value: a text that is a geometry gives that placement, a function a
/// placement that it decides, and everything else the default.
pub open spec fn min_geometry_of(value: MinGeometryValue) -> (MinGeometry, MinGeometryRemark) {
    match value {
        MinGeometryValue::Absent => (default_min_geometry(), MinGeometryRemark::Accepted),
        MinGeometryValue::Text(s) => match parse_geometry(s@) {
            Ok(g) => (MinGeometry::Fixed(g), MinGeometryRemark::Accepted),
            Err(e) => (default_min_geometry(), MinGeometryRemark::InvalidText(e)),
        },
        MinGeometryValue::Function { callback_key } => (
            MinGeometry::Dynamic { callback_key },
            MinGeometryRemark::Accepted,
        ),
        MinGeometryValue::Other => (default_min_geometry(), MinGeometryRemark::UnexpectedValue),
    }
}

/// Reads the minimum placement that a script handed in.
pub fn get_min_geometry_from_value(value: &MinGeometryValue) -> (r: (
    MinGeometry,
    MinGeometryRemark,
))
    ensures
        r == min_geometry_of(*value),
{
    match value {
        MinGeometryValue::Absent => (MinGeometry::default(), MinGeometryRemark::Accepted),
        MinGeometryValue::Text(s) => match AlignedGeometry::from_str(s.as_str()) {
            Ok(g) => (MinGeometry::Fixed(g), MinGeometryRemark::Accepted),
            Err(e) => (MinGeometry::default(), MinGeometryRemark::InvalidText(e)),
        },
        MinGeometryValue::Function { callback_key } => (
            MinGeometry::Dynamic { callback_key: *callback_key },
            MinGeometryRemark::Accepted,
        ),
        MinGeometryValue::Other => (MinGeometry::default(), MinGeometryRemark::UnexpectedValue),
    }
}

/// The moment at which the search for a window to claim ends: `timeout_ms`
/// after `now`, and the last moment there is where that lies beyond it.
pub fn claim_deadline(now: u64, timeout_ms: u64) -> (r: u64)
    ensures
        r == if now + timeout_ms <= u64::MAX {
            now + timeout_ms
        } else {
            u64::MAX as int
        },
{
    if timeout_ms <= u64::MAX - now {
        now + timeout_ms
    } else {
        u64::MAX
    }
}

/// What the search for a window to claim does next.
#[derive(Debug, PartialEq, Eq, Copy, Clone, Structural)]
pub enum ClaimStep {
    /// Give up: the window did not appear in time.
    TimedOut,
    /// Look for the window at once.
    Look,
    /// Wait for so many milliseconds, then look for the window.
    SleepThenLook { ms: u64 },
}

/// What the search does at `now`, given its deadline and whether it has just
/// looked without finding the window: it gives up from the deadline on; it
/// looks at once before the first look; and after a look in vain it waits
/// for the poll interval, or for what is left until the deadline if that is
/// less.
pub open spec fn claim_next(now: u64, deadline: u64, looked: bool) -> ClaimStep {
    if now >= deadline {
        ClaimStep::TimedOut
    } else if !looked {
        ClaimStep::Look
    } else if deadline - now < CLAIM_POLL_INTERVAL_MS {
        ClaimStep::SleepThenLook { ms: (deadline - now) as u64 }
    } else {
        ClaimStep::SleepThenLook { ms: CLAIM_POLL_INTERVAL_MS }
    }
}

/// Decides what the search for a window to claim does next.
pub fn claim_step(now: u64, deadline: u64, looked: bool) -> (r: ClaimStep)
    ensures
        r == claim_next(now, deadline, looked),
{
    if now >= deadline {
        ClaimStep::TimedOut
    } else if !looked {
        ClaimStep::Look
    } else if deadline - now < CLAIM_POLL_INTERVAL_MS {
        ClaimStep::SleepThenLook { ms: deadline - now }
    } else {
        ClaimStep::SleepThenLook { ms: CLAIM_POLL_INTERVAL_MS }
    }
}

} // verus!

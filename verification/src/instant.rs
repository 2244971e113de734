use vstd::prelude::*;

verus! {

/// A point on the UTC time line: whole seconds since 1970-01-01T00:00:00Z and
/// the nanoseconds past that second (a thousand million or more of them
/// within a leap second). Two instants are ordered by `secs`, then by
/// `nanos`.
#[derive(Clone, Copy, Debug, PartialEq, Eq, Structural)]
pub struct Instant {
    pub secs: i64,
    pub nanos: u32,
}

impl Instant {
    /// Strictly earlier than `other`.
    pub open spec fn before(self, other: Instant) -> bool {
        self.secs < other.secs || (self.secs == other.secs && self.nanos < other.nanos)
    }

    pub fn new(secs: i64, nanos: u32) -> (r: Instant)
        ensures
            r == (Instant { secs, nanos }),
    {
        Instant { secs, nanos }
    }

    pub fn is_before(&self, other: &Instant) -> (r: bool)
        ensures
            r == self.before(*other),
    {
        self.secs < other.secs || (self.secs == other.secs && self.nanos < other.nanos)
    }
}

/// The instant that an RFC 3339 date-and-time text denotes, or `None` where
/// the text is not one.
pub uninterp spec fn rfc3339_instant(text: Seq<char>) -> Option<Instant>;

/// Calls `chrono::DateTime::parse_from_rfc3339`. The contract claims that the
/// outcome depends on the text alone, and names it: a parsed value is handed
/// back as its `timestamp()` and `timestamp_subsec_nanos()`, the pair by which
/// chrono itself orders two date-times; a parse error becomes `None`.
#[verifier::external_body]
pub(crate) fn parse_rfc3339(text: &str) -> (r: Option<Instant>)
    ensures
        r == rfc3339_instant(text@),
{
    match chrono::DateTime::parse_from_rfc3339(text) {
        Ok(t) => Some(Instant { secs: t.timestamp(), nanos: t.timestamp_subsec_nanos() }),
        Err(_) => None,
    }
}

/// The earlier of two optional instants, an absent one never winning.
pub open spec fn earlier(a: Option<Instant>, b: Option<Instant>) -> Option<Instant> {
    match (a, b) {
        (Some(x), Some(y)) => if y.before(x) { b } else { a },
        (Some(_), None) => a,
        (None, _) => b,
    }
}

/// The earliest of the present instants in `stamps`, `None` where none is
/// present. Of several equal ones it is the first.
pub open spec fn oldest(stamps: Seq<Option<Instant>>) -> Option<Instant>
    decreases stamps.len(),
{
    if stamps.len() == 0 {
        None
    } else {
        earlier(oldest(stamps.drop_last()), stamps.last())
    }
}

/// `oldest` is a lower bound of the present instants and is one of them.
pub proof fn lemma_oldest_is_minimum(stamps: Seq<Option<Instant>>)
    ensures
        oldest(stamps) is None <==> (forall|i: int| 0 <= i < stamps.len() ==> stamps[i] is None),
        oldest(stamps) matches Some(m) ==> {
            &&& exists|i: int| 0 <= i < stamps.len() && stamps[i] == Some(m)
            &&& forall|i: int|
                0 <= i < stamps.len() ==> (#[trigger] stamps[i] matches Some(t) ==> !t.before(m))
        },
    decreases stamps.len(),
{
    if stamps.len() > 0 {
        let front = stamps.drop_last();
        lemma_oldest_is_minimum(front);
        assert(forall|i: int| 0 <= i < front.len() ==> front[i] == stamps[i]);
        if let Some(m) = oldest(stamps) {
            if oldest(front) == Some(m) {
                let i = choose|i: int| 0 <= i < front.len() && front[i] == Some(m);
                assert(stamps[i] == Some(m));
            } else {
                assert(stamps[stamps.len() - 1] == Some(m));
            }
        }
    }
}

/// The earliest instant among `stamps`.
pub fn oldest_instant(stamps: &Vec<Option<Instant>>) -> (r: Option<Instant>)
    ensures
        r == oldest(stamps@),
{
    let mut best: Option<Instant> = None;
    let mut i: usize = 0;
    while i < stamps.len()
        invariant
            i <= stamps.len(),
            best == oldest(stamps@.take(i as int)),
        decreases stamps.len() - i,
    {
        let stamp = stamps[i];
        proof {
            assert(stamps@.take(i + 1).drop_last() =~= stamps@.take(i as int));
        }
        match (best, stamp) {
            (Some(x), Some(y)) => {
                if y.is_before(&x) {
                    best = stamp;
                }
            },
            (Some(_), None) => {},
            (None, _) => {
                best = stamp;
            },
        }
        i += 1;
    }
    proof {
        assert(stamps@.take(i as int) =~= stamps@);
    }
    best
}

} // verus!

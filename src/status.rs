use vstd::prelude::*;

use crate::text::{text_eq, text_is_empty};

verus! {

/// Lifecycle state of a decision record.
#[derive(Debug, Clone, Copy, PartialEq, Eq, Hash, Structural)]
pub enum Status {
    Proposed,
    Accepted,
    Deprecated,
    Superseded,
}

/// What `str::to_lowercase` returns for a text.
pub uninterp spec fn lower_of(s: Seq<char>) -> Seq<char>;

/// Relies on `str::to_lowercase`: the result depends on the characters alone,
/// and an empty text stays empty.
#[verifier::external_body]
pub(crate) fn lowercase(s: &str) -> (r: String)
    ensures
        r@ == lower_of(s@),
        s@.len() == 0 ==> r@.len() == 0,
{
    s.to_lowercase()
}

/// The canonical lowercase name of each status.
pub open spec fn status_name(s: Status) -> Seq<char> {
    match s {
        Status::Proposed => "proposed"@,
        Status::Accepted => "accepted"@,
        Status::Deprecated => "deprecated"@,
        Status::Superseded => "superseded"@,
    }
}

/// The status whose canonical name is exactly `l`, if any.
pub open spec fn status_named(l: Seq<char>) -> Option<Status> {
    if l == "proposed"@ {
        Some(Status::Proposed)
    } else if l == "accepted"@ {
        Some(Status::Accepted)
    } else if l == "deprecated"@ {
        Some(Status::Deprecated)
    } else if l == "superseded"@ {
        Some(Status::Superseded)
    } else {
        None
    }
}

/// The status a raw header value decodes to: a known name in any letter case,
/// anything else (absent or empty included) is `Proposed`.
pub open spec fn lenient_status(raw: Option<Seq<char>>) -> Status {
    match raw {
        Some(t) if t.len() > 0 => match status_named(lower_of(t)) {
            Some(s) => s,
            None => Status::Proposed,
        },
        _ => Status::Proposed,
    }
}

impl Status {
    pub fn as_str(&self) -> (r: &'static str)
        ensures
            r@ == status_name(*self),
    {
        match self {
            Status::Proposed => "proposed",
            Status::Accepted => "accepted",
            Status::Deprecated => "deprecated",
            Status::Superseded => "superseded",
        }
    }

    /// The canonical name, as an owned text.
    pub fn to_string(&self) -> (r: String)
        ensures
            r@ == status_name(*self),
    {
        <String as vstd::string::StringExecFns>::from_str(self.as_str())
    }

    /// CSS class used to style this status.
    pub fn css_class(&self) -> (r: &'static str)
        ensures
            r@ == "status-"@ + status_name(*self),
    {
        proof {
            reveal_strlit("status-");
            reveal_strlit("proposed");
            reveal_strlit("accepted");
            reveal_strlit("deprecated");
            reveal_strlit("superseded");
            reveal_strlit("status-proposed");
            reveal_strlit("status-accepted");
            reveal_strlit("status-deprecated");
            reveal_strlit("status-superseded");
        }
        let r = match self {
            Status::Proposed => "status-proposed",
            Status::Accepted => "status-accepted",
            Status::Deprecated => "status-deprecated",
            Status::Superseded => "status-superseded",
        };
        assert(r@ =~= "status-"@ + status_name(*self));
        r
    }

    /// Display colour of this status, as a hex code.
    pub fn color(&self) -> (r: &'static str)
        ensures
            *self == Status::Proposed ==> r@ == "#f59e0b"@,
            *self == Status::Accepted ==> r@ == "#10b981"@,
            *self == Status::Deprecated ==> r@ == "#ef4444"@,
            *self == Status::Superseded ==> r@ == "#6b7280"@,
    {
        match self {
            Status::Proposed => "#f59e0b",
            Status::Accepted => "#10b981",
            Status::Deprecated => "#ef4444",
            Status::Superseded => "#6b7280",
        }
    }

    /// Every status, in declaration order.
    pub fn all() -> (r: Vec<Status>)
        ensures
            r@ == seq![Status::Proposed, Status::Accepted, Status::Deprecated, Status::Superseded],
    {
        let r = vec![Status::Proposed, Status::Accepted, Status::Deprecated, Status::Superseded];
        assert(r@ =~= seq![Status::Proposed, Status::Accepted, Status::Deprecated, Status::Superseded]);
        r
    }

    /// The status whose canonical name is exactly the given (already lowercased) text.
    pub fn from_lowercase(l: &str) -> (r: Option<Status>)
        ensures
            r == status_named(l@),
    {
        if text_eq(l, "proposed") {
            Some(Status::Proposed)
        } else if text_eq(l, "accepted") {
            Some(Status::Accepted)
        } else if text_eq(l, "deprecated") {
            Some(Status::Deprecated)
        } else if text_eq(l, "superseded") {
            Some(Status::Superseded)
        } else {
            None
        }
    }

    /// Strict parse: a canonical name in any letter case.
    pub fn parse(s: &str) -> (r: Option<Status>)
        ensures
            r == status_named(lower_of(s@)),
    {
        let l = lowercase(s);
        Status::from_lowercase(l.as_str())
    }
}

impl Default for Status {
    fn default() -> (r: Status)
        ensures
            r == Status::Proposed,
    {
        Status::Proposed
    }
}

impl std::str::FromStr for Status {
    type Err = String;

    fn from_str(s: &str) -> Result<Status, String> {
        match Status::parse(s) {
            Some(st) => Ok(st),
            None => Err(<String as vstd::string::StringExecFns>::from_str("invalid status")),
        }
    }
}

/// The unknown status values already reported, by their lowercase form.
/// A caller owns one of these per run and hands it to every decode, so that
/// each unknown value is reported once however many records carry it.
#[derive(Debug, Clone)]
pub struct StatusWarnings {
    seen: Vec<String>,
}

impl View for StatusWarnings {
    type V = Set<Seq<char>>;

    closed spec fn view(&self) -> Set<Seq<char>> {
        Set::new(|t: Seq<char>| exists|j: int| 0 <= j < self.seen@.len() && self.seen@[j]@ == t)
    }
}

impl StatusWarnings {
    pub fn new() -> (r: StatusWarnings)
        ensures
            r@ == Set::<Seq<char>>::empty(),
    {
        let r = StatusWarnings { seen: Vec::new() };
        assert(r@ =~= Set::<Seq<char>>::empty());
        r
    }

    pub fn contains(&self, v: &str) -> (r: bool)
        ensures
            r == self@.contains(v@),
    {
        let mut i: usize = 0;
        while i < self.seen.len()
            invariant
                i <= self.seen@.len(),
                forall|j: int| 0 <= j < i ==> self.seen@[j]@ != v@,
            decreases self.seen@.len() - i,
        {
            if text_eq(self.seen[i].as_str(), v) {
                assert(self@.contains(v@));
                return true;
            }
            i += 1;
        }
        false
    }

    /// Remembers `v`; says whether it was new, that is whether a warning is owed.
    pub fn note(&mut self, v: String) -> (fresh: bool)
        ensures
            fresh == !old(self)@.contains(v@),
            final(self)@ == old(self)@.insert(v@),
    {
        if self.contains(v.as_str()) {
            assert(self@.insert(v@) =~= self@);
            false
        } else {
            let ghost before = self.seen@;
            let ghost vv = v@;
            self.seen.push(v);
            assert(self.seen@[before.len() as int]@ == vv);
            assert forall|t: Seq<char>| self@.contains(t) == old(self)@.insert(vv).contains(t) by {
                if old(self)@.contains(t) {
                    let j = choose|j: int| 0 <= j < before.len() && before[j]@ == t;
                    assert(self.seen@[j]@ == t);
                }
            }
            assert(self@ =~= old(self)@.insert(vv));
            true
        }
    }
}

/// Whether decoding `raw` against the values already reported, `seen`, owes a
/// warning: the value is not empty, names no status, and its lowercase form
/// was not reported before.
pub open spec fn owes_warning(seen: Set<Seq<char>>, raw: Seq<char>) -> bool {
    raw.len() > 0 && status_named(lower_of(raw)) is None && !seen.contains(lower_of(raw))
}

/// The values reported after decoding `raw`: an unknown value is remembered
/// by its lowercase form.
pub open spec fn seen_after(seen: Set<Seq<char>>, raw: Seq<char>) -> Set<Seq<char>> {
    if raw.len() > 0 && status_named(lower_of(raw)) is None {
        seen.insert(lower_of(raw))
    } else {
        seen
    }
}

/// Values that differ only in letter case are reported at most once: once one
/// of them has been decoded, decoding another owes no warning.
pub proof fn lemma_warn_once(seen: Set<Seq<char>>, a: Seq<char>, b: Seq<char>)
    requires
        a.len() > 0,
        lower_of(a) == lower_of(b),
    ensures
        !owes_warning(seen_after(seen, a), b),
        seen_after(seen_after(seen, a), b) == seen_after(seen, a),
{
    if b.len() > 0 && status_named(lower_of(b)) is None {
        assert(seen_after(seen, a).contains(lower_of(b)));
        assert(seen_after(seen, a).insert(lower_of(b)) =~= seen_after(seen, a));
    }
}

/// Decodes a raw header value leniently. Returns the status and, when a
/// warning is owed (see [`owes_warning`]), the lowercase form to report.
pub fn decode_status(raw: Option<&str>, warnings: &mut StatusWarnings) -> (r: (Status, Option<String>))
    ensures
        r.0 == lenient_status(match raw { Some(t) => Some(t@), None => None }),
        match raw {
            Some(t) => {
                &&& final(warnings)@ == seen_after(old(warnings)@, t@)
                &&& (r.1 is Some) == owes_warning(old(warnings)@, t@)
                &&& (r.1 matches Some(w) ==> w@ == lower_of(t@))
            },
            None => final(warnings)@ == old(warnings)@ && r.1 is None,
        },
{
    match raw {
        Some(t) => {
            if text_is_empty(t) {
                (Status::Proposed, None)
            } else {
                let l = lowercase(t);
                decode_lowered_status(l, warnings)
            }
        },
        None => (Status::Proposed, None),
    }
}

/// The part of [`decode_status`] after lowercasing: `l` is the lowercase form
/// of a non-empty raw value.
pub fn decode_lowered_status(l: String, warnings: &mut StatusWarnings) -> (r: (Status, Option<String>))
    ensures
        r.0 == (match status_named(l@) { Some(s) => s, None => Status::Proposed }),
        status_named(l@) is Some ==> final(warnings)@ == old(warnings)@ && r.1 is None,
        status_named(l@) is None ==> {
            &&& final(warnings)@ == old(warnings)@.insert(l@)
            &&& (r.1 is Some) == !old(warnings)@.contains(l@)
            &&& r.1 is Some ==> r.1->0@ == l@
        },
{
    match Status::from_lowercase(l.as_str()) {
        Some(s) => (s, None),
        None => {
            let report = l.clone();
            if warnings.note(l) {
                (Status::Proposed, Some(report))
            } else {
                (Status::Proposed, None)
            }
        },
    }
}

} // verus!

//! What a reverse conversion could not carry over exactly.
//!
//! Converters that lose or guess information record an entry in a
//! [`LossReport`] that the caller hands them.

use vstd::prelude::*;

verus! {

/// What kind of information did not survive.
#[derive(Clone, Copy, Debug, PartialEq, Eq, Structural)]
pub enum LossKind {
    /// Two distinct source values map to the same target value.
    FingerprintCollapse,
    /// A data component was dropped.
    ComponentDropped,
    /// A rename cannot tell which source name was meant.
    RenameAmbiguous,
    /// Entities that were distinct in one version merge in the other.
    EntityMergeAmbiguous,
    /// The target version has no way to say this.
    UnsupportedInTarget,
    /// Anything else.
    Other,
}

/// How bad the loss is.
#[derive(Clone, Copy, Debug, PartialEq, Eq, Structural)]
pub enum Severity {
    /// A plausible value was restored.
    Approximated,
    /// Information is gone.
    Loss,
}

/// One recorded loss.
pub struct LossEntry {
    pub version: i32,
    pub kind: LossKind,
    pub severity: Severity,
    pub message: String,
}

/// The losses recorded during a conversion, in the order they happened.
pub struct LossReport {
    pub entries: Vec<LossEntry>,
}

/// Number of entries of `s` whose severity is [`Severity::Loss`].
pub open spec fn loss_count_of(s: Seq<LossEntry>) -> nat
    decreases s.len(),
{
    if s.len() == 0 {
        0
    } else {
        loss_count_of(s.drop_last()) + if s.last().severity == Severity::Loss { 1nat } else { 0nat }
    }
}

/// `s` gains exactly one entry with these fields over `old`.
pub open spec fn one_more(old: Seq<LossEntry>, s: Seq<LossEntry>, version: i32, kind: LossKind, severity: Severity) -> bool {
    &&& s.len() == old.len() + 1
    &&& s.subrange(0, old.len() as int) == old
    &&& s.last().version == version
    &&& s.last().kind == kind
    &&& s.last().severity == severity
}

/// `s` gains exactly one entry over `old`, with these fields and the
/// message text `message`.
pub open spec fn one_more_with(
    old: Seq<LossEntry>,
    s: Seq<LossEntry>,
    version: i32,
    kind: LossKind,
    severity: Severity,
    message: Seq<char>,
) -> bool {
    &&& one_more(old, s, version, kind, severity)
    &&& s.last().message@ == message
}

/// `s` gains exactly `n` entries over `old`, each with these fields.
pub open spec fn gained(old: Seq<LossEntry>, s: Seq<LossEntry>, n: int, version: i32, kind: LossKind, severity: Severity) -> bool {
    &&& n >= 0
    &&& s.len() == old.len() + n
    &&& s.subrange(0, old.len() as int) == old
    &&& forall|i: int| old.len() <= i < s.len() ==> (#[trigger] s[i]).version == version && s[i].kind == kind
        && s[i].severity == severity
}

/// `s` is `old` with one entry per `(kind, severity, message)` of `tags`,
/// in order, each of `version`.
pub open spec fn appended_at(old: Seq<LossEntry>, s: Seq<LossEntry>, version: i32, tags: Seq<(LossKind, Severity, Seq<char>)>) -> bool {
    &&& s.len() == old.len() + tags.len()
    &&& s.subrange(0, old.len() as int) == old
    &&& forall|i: int|
        0 <= i < tags.len() ==> (#[trigger] s[old.len() + i]).version == version && s[old.len() + i].kind
            == tags[i].0 && s[old.len() + i].severity == tags[i].1 && s[old.len() + i].message@ == tags[i].2
}

/// Every entry of `s` past the first `old.len()` says `message`.
pub open spec fn all_said(old: Seq<LossEntry>, s: Seq<LossEntry>, message: Seq<char>) -> bool {
    forall|i: int| old.len() <= i < s.len() ==> (#[trigger] s[i]).message@ == message
}

/// Nothing new says anything.
pub proof fn lemma_all_said_none(s: Seq<LossEntry>, message: Seq<char>)
    ensures
        all_said(s, s, message),
{
}

/// One more entry saying `message` keeps every new entry saying it.
pub proof fn lemma_all_said_more(a: Seq<LossEntry>, b: Seq<LossEntry>, c: Seq<LossEntry>, message: Seq<char>)
    requires
        a.len() <= b.len(),
        all_said(a, b, message),
        c.len() == b.len() + 1,
        c.subrange(0, b.len() as int) == b,
        c.last().message@ == message,
    ensures
        all_said(a, c, message),
{
    assert forall|i: int| a.len() <= i < c.len() implies (#[trigger] c[i]).message@ == message by {
        if i < b.len() {
            assert(c[i] == c.subrange(0, b.len() as int)[i]);
        }
    }
}

/// Nothing gained is zero entries gained.
pub proof fn lemma_gained_none(s: Seq<LossEntry>, version: i32, kind: LossKind, severity: Severity)
    ensures
        gained(s, s, 0, version, kind, severity),
{
    assert(s.subrange(0, s.len() as int) =~= s);
}

/// One more entry after `n` gained is `n + 1` gained.
pub proof fn lemma_gained_one_more(a: Seq<LossEntry>, b: Seq<LossEntry>, c: Seq<LossEntry>, n: int, version: i32, kind: LossKind, severity: Severity)
    requires
        gained(a, b, n, version, kind, severity),
        one_more(b, c, version, kind, severity),
    ensures
        gained(a, c, n + 1, version, kind, severity),
{
    assert(c.subrange(0, a.len() as int) =~= b.subrange(0, a.len() as int));
    assert forall|i: int| a.len() <= i < c.len() implies (#[trigger] c[i]).version == version && c[i].kind == kind
        && c[i].severity == severity by {
        if i < b.len() {
            assert(c[i] == c.subrange(0, b.len() as int)[i]);
        }
    }
}

/// Nothing appended.
pub proof fn lemma_appended_none(s: Seq<LossEntry>, version: i32)
    ensures
        appended_at(s, s, version, Seq::empty()),
{
    assert(s.subrange(0, s.len() as int) =~= s);
}

/// One entry appended.
pub proof fn lemma_appended_one(
    a: Seq<LossEntry>,
    b: Seq<LossEntry>,
    version: i32,
    kind: LossKind,
    severity: Severity,
    message: Seq<char>,
)
    requires
        one_more_with(a, b, version, kind, severity, message),
    ensures
        appended_at(a, b, version, seq![(kind, severity, message)]),
{
    assert(b[a.len() as int + 0] == b.last());
}

/// Appends chain.
pub proof fn lemma_appended_chain(
    a: Seq<LossEntry>,
    b: Seq<LossEntry>,
    c: Seq<LossEntry>,
    version: i32,
    t1: Seq<(LossKind, Severity, Seq<char>)>,
    t2: Seq<(LossKind, Severity, Seq<char>)>,
)
    requires
        appended_at(a, b, version, t1),
        appended_at(b, c, version, t2),
    ensures
        appended_at(a, c, version, t1 + t2),
{
    assert(c.subrange(0, a.len() as int) =~= b.subrange(0, a.len() as int)) by {
        assert forall|i: int| 0 <= i < a.len() implies c[i] == b[i] by {
            assert(c.subrange(0, b.len() as int)[i] == c[i]);
        }
    }
    assert forall|i: int| 0 <= i < (t1 + t2).len() implies (#[trigger] c[a.len() + i]).version == version && c[a.len()
        + i].kind == (t1 + t2)[i].0 && c[a.len() + i].severity == (t1 + t2)[i].1
        && c[a.len() + i].message@ == (t1 + t2)[i].2 by {
        if i < t1.len() {
            assert(b[a.len() + i].version == version);
            assert(c.subrange(0, b.len() as int)[a.len() + i] == c[a.len() + i]);
        } else {
            let j = i - t1.len();
            assert(c[b.len() + j].version == version);
            assert(b.len() + j == a.len() + i);
        }
    }
}

impl LossReport {
    /// An empty report.
    pub fn new() -> (r: LossReport)
        ensures
            r.entries@.len() == 0,
    {
        LossReport { entries: Vec::new() }
    }

    /// Number of entries.
    pub fn len(&self) -> (n: usize)
        ensures
            n == self.entries@.len(),
    {
        self.entries.len()
    }

    /// Is the report empty?
    pub fn is_empty(&self) -> (b: bool)
        ensures
            b == (self.entries@.len() == 0),
    {
        self.entries.len() == 0
    }

    /// Number of entries of severity [`Severity::Loss`].
    pub fn loss_count(&self) -> (n: usize)
        ensures
            n == loss_count_of(self.entries@),
    {
        let mut n: usize = 0;
        let mut i: usize = 0;
        while i < self.entries.len()
            invariant
                i <= self.entries@.len(),
                n == loss_count_of(self.entries@.subrange(0, i as int)),
                n <= i,
            decreases self.entries@.len() - i,
        {
            proof {
                assert(self.entries@.subrange(0, i + 1).drop_last() =~= self.entries@.subrange(0, i as int));
            }
            if self.entries[i].severity == Severity::Loss {
                n = n + 1;
            }
            i = i + 1;
        }
        proof {
            assert(self.entries@.subrange(0, i as int) =~= self.entries@);
        }
        n
    }
}

/// Record a loss.
pub fn report_loss(report: &mut LossReport, version: i32, kind: LossKind, severity: Severity, message: String)
    ensures
        one_more(old(report).entries@, final(report).entries@, version, kind, severity),
        final(report).entries@.last().message@ == message@,
{
    report.entries.push(LossEntry { version, kind, severity, message });
    proof {
        assert(final(report).entries@.subrange(0, old(report).entries@.len() as int) =~= old(report).entries@);
    }
}

/// Record a loss whose message is a fixed text.
pub fn report(report: &mut LossReport, version: i32, kind: LossKind, severity: Severity, message: &str)
    ensures
        one_more(old(report).entries@, final(report).entries@, version, kind, severity),
        final(report).entries@.last().message@ == message@,
{
    report_loss(report, version, kind, severity, message.to_owned());
}

} // verus!

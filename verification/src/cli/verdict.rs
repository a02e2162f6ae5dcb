//! What the isolation tests find, and what it comes to.

use crate::text::{concat2, concat3, concat5, decimal, decimal_text, same, texts};
use vstd::prelude::*;

verus! {

/// What one test found.
#[derive(Clone, Debug)]
pub struct Verdict {
    pub passed: bool,
    pub message: String,
}

/// What a verdict holds.
#[verifier::ext_equal]
pub struct Finding {
    pub passed: bool,
    pub message: Seq<char>,
}

impl View for Verdict {
    type V = Finding;

    open spec fn view(&self) -> Finding {
        Finding { passed: self.passed, message: self.message@ }
    }
}

pub open spec fn passes(message: Seq<char>) -> Finding {
    Finding { passed: true, message }
}

pub open spec fn fails(message: Seq<char>) -> Finding {
    Finding { passed: false, message }
}

/// The finding of a test that passes where `b` holds.
pub open spec fn either(b: bool, good: Seq<char>, bad: Seq<char>) -> Finding {
    if b {
        passes(good)
    } else {
        fails(bad)
    }
}

pub open spec fn findings(v: Seq<Verdict>) -> Seq<Finding> {
    Seq::new(v.len(), |i: int| v[i]@)
}

pub(crate) fn passed(message: &str) -> (v: Verdict)
    ensures
        v@ == passes(message@),
{
    Verdict { passed: true, message: message.to_owned() }
}

pub(crate) fn failed(message: &str) -> (v: Verdict)
    ensures
        v@ == fails(message@),
{
    Verdict { passed: false, message: message.to_owned() }
}

pub(crate) fn decide(b: bool, good: &str, bad: &str) -> (v: Verdict)
    ensures
        v@ == either(b, good@, bad@),
{
    if b {
        passed(good)
    } else {
        failed(bad)
    }
}

/// The line that shows a verdict.
pub fn show_verdict(v: &Verdict) -> (s: String)
    ensures
        s@ == shown(v@),
{
    if v.passed {
        concat2("PASS ✓ ", v.message.as_str())
    } else {
        concat2("FAIL ✗ ", v.message.as_str())
    }
}

/// How many tests passed and failed, and how many sections were passed over.
#[derive(Clone, Copy, Debug, PartialEq, Eq, Structural)]
pub struct Tally {
    pub passed: u32,
    pub failed: u32,
    pub skipped: u32,
}

impl Tally {
    pub fn new() -> (t: Self)
        ensures
            t == (Tally { passed: 0, failed: 0, skipped: 0 }),
    {
        Tally { passed: 0, failed: 0, skipped: 0 }
    }

    /// Counts a test that passed.
    pub fn pass(&mut self)
        requires
            old(self).passed < u32::MAX,
        ensures
            *final(self) == (Tally { passed: (old(self).passed + 1) as u32, ..*old(self) }),
    {
        self.passed = self.passed + 1;
    }

    /// Counts a test that failed.
    pub fn fail(&mut self)
        requires
            old(self).failed < u32::MAX,
        ensures
            *final(self) == (Tally { failed: (old(self).failed + 1) as u32, ..*old(self) }),
    {
        self.failed = self.failed + 1;
    }

    /// Counts a verdict.
    pub fn count(&mut self, v: &Verdict)
        requires
            old(self).passed < u32::MAX,
            old(self).failed < u32::MAX,
        ensures
            *final(self) == if v.passed {
                Tally { passed: (old(self).passed + 1) as u32, ..*old(self) }
            } else {
                Tally { failed: (old(self).failed + 1) as u32, ..*old(self) }
            },
    {
        if v.passed {
            self.pass();
        } else {
            self.fail();
        }
    }

    /// Counts a section whose requirements are not met.
    pub fn skip(&mut self)
        requires
            old(self).skipped < u32::MAX,
        ensures
            *final(self) == (Tally { skipped: (old(self).skipped + 1) as u32, ..*old(self) }),
    {
        self.skipped = self.skipped + 1;
    }

    /// What the tests came to, a line each.
    pub open spec fn summary(self) -> Seq<Seq<char>> {
        seq![
            "  RESULTS: "@ + decimal(self.passed as nat) + "/"@ + decimal(
                (self.passed + self.failed) as nat,
            ) + (" passed, "@ + decimal(self.failed as nat) + " failed, "@ + decimal(
                self.skipped as nat,
            ) + " sections skipped"@),
            if self.failed > 0 {
                "  STATUS: SOME TESTS FAILED"@
            } else {
                "  STATUS: ALL TESTS PASSED ✓"@
            },
        ]
    }

    /// What the tests came to, a line each.
    pub fn show(&self) -> (v: Vec<String>)
        ensures
            texts(v@) == self.summary(),
    {
        let p = decimal_text(self.passed as u128);
        let f = decimal_text(self.failed as u128);
        let s = decimal_text(self.skipped as u128);
        let total = decimal_text(self.passed as u128 + self.failed as u128);
        let tail = concat5(" passed, ", f.as_str(), " failed, ", s.as_str(), " sections skipped");
        let v = vec![
            concat5("  RESULTS: ", p.as_str(), "/", total.as_str(), tail.as_str()),
            if self.failed > 0 {
                "  STATUS: SOME TESTS FAILED".to_owned()
            } else {
                "  STATUS: ALL TESTS PASSED ✓".to_owned()
            },
        ];
        assert(texts(v@) =~= self.summary());
        v
    }

    /// The exit code of the tests: 1 where one failed.
    pub open spec fn code(self) -> i32 {
        if self.failed > 0 {
            1
        } else {
            0
        }
    }

    /// The exit code of the tests.
    pub fn exit_code(&self) -> (c: i32)
        ensures
            c == self.code(),
    {
        if self.failed > 0 {
            1
        } else {
            0
        }
    }
}

/// What is done with a section of the tests.
#[derive(Clone, Copy, Debug, PartialEq, Eq, Structural)]
pub enum SectionStep {
    Run,
    /// It is wanted, and the host does not meet its requirements.
    Skip,
    /// It is not wanted.
    Leave,
}

/// What is done with a section: `all` asks for every one.
pub open spec fn section_step(category: Seq<char>, name: Seq<char>, met: bool) -> SectionStep {
    if category == "all"@ || category == name {
        if met {
            SectionStep::Run
        } else {
            SectionStep::Skip
        }
    } else {
        SectionStep::Leave
    }
}

/// The sections of the tests, in their order.
pub const SECTIONS: [&'static str; 13] = [
    "job",
    "process",
    "fs",
    "lifecycle",
    "exec",
    "tools",
    "output",
    "env",
    "stress",
    "sandbox",
    "silo",
    "bindlink",
    "network",
];

/// Whether the host meets the requirements of a section.
pub open spec fn requirements_met(name: Seq<char>, silos: bool, bind_filter: bool) -> bool {
    if name == "silo"@ {
        silos
    } else if name == "bindlink"@ {
        bind_filter
    } else {
        true
    }
}

/// What is done with a section of the tests on a host with or without silos and
/// bind links.
pub fn cmd_test(category: &str, name: &str, silos: bool, bind_filter: bool) -> (s: SectionStep)
    ensures
        s == section_step(category@, name@, requirements_met(name@, silos, bind_filter)),
{
    let met = if same(name, "silo") {
        silos
    } else if same(name, "bindlink") {
        bind_filter
    } else {
        true
    };
    if same(category, "all") || same(category, name) {
        if met {
            SectionStep::Run
        } else {
            SectionStep::Skip
        }
    } else {
        SectionStep::Leave
    }
}

/// The line about a section that is passed over.
pub fn skip_line(name: &str) -> (s: String)
    ensures
        s@ == "⏭  SKIP: "@ + name@ + " (requirements not met)\n"@,
{
    concat3("⏭  SKIP: ", name, " (requirements not met)\n")
}

/// The tally after a list of findings.
pub open spec fn tallied(start: Tally, f: Seq<Finding>) -> (nat, nat)
    decreases f.len(),
{
    if f.len() == 0 {
        (start.passed as nat, start.failed as nat)
    } else {
        let (p, q) = tallied(start, f.drop_last());
        if f.last().passed {
            (p + 1, q)
        } else {
            (p, q + 1)
        }
    }
}

/// Counts a list of verdicts.
pub fn count_all(t: &mut Tally, v: &Vec<Verdict>)
    requires
        old(t).passed + v.len() <= u32::MAX,
        old(t).failed + v.len() <= u32::MAX,
    ensures
        (final(t).passed as nat, final(t).failed as nat) == tallied(*old(t), findings(v@)),
        final(t).skipped == old(t).skipped,
{
    let ghost all = findings(v@);
    let mut i: usize = 0;
    assert(all.take(0) =~= Seq::<Finding>::empty());
    while i < v.len()
        invariant
            i <= v.len(),
            all == findings(v@),
            old(t).passed + v.len() <= u32::MAX,
            old(t).failed + v.len() <= u32::MAX,
            t.passed <= old(t).passed + i,
            t.failed <= old(t).failed + i,
            t.skipped == old(t).skipped,
            (t.passed as nat, t.failed as nat) == tallied(*old(t), all.take(i as int)),
        decreases v.len() - i,
    {
        proof {
            let s = all.take(i + 1);
            assert(s.drop_last() =~= all.take(i as int));
            assert(s.last() == v[i as int]@);
        }
        t.count(&v[i]);
        i = i + 1;
    }
    assert(all.take(all.len() as int) =~= all);
}

/// The tests count as passed exactly where none of them failed.
pub proof fn law_one_failure_fails(start: Tally, f: Seq<Finding>)
    ensures
        tallied(start, f).0 + tallied(start, f).1 == start.passed + start.failed + f.len(),
        tallied(start, f).1 == start.failed <==> forall|i: int|
            0 <= i < f.len() ==> (#[trigger] f[i]).passed,
        tallied(start, f).1 >= start.failed,
    decreases f.len(),
{
    if f.len() > 0 {
        let g = f.drop_last();
        law_one_failure_fails(start, g);
        if forall|i: int| 0 <= i < g.len() ==> (#[trigger] g[i]).passed {
            if f.last().passed {
                assert forall|i: int| 0 <= i < f.len() implies (#[trigger] f[i]).passed by {
                    if i < g.len() {
                        assert(f[i] == g[i]);
                    }
                }
            } else {
                assert(!f[f.len() - 1].passed);
            }
        } else {
            let i = choose|i: int| 0 <= i < g.len() && !(#[trigger] g[i]).passed;
            assert(f[i] == g[i]);
        }
    }
}

/// A verdict as it is shown.
pub open spec fn shown(f: Finding) -> Seq<char> {
    if f.passed {
        "PASS ✓ "@ + f.message
    } else {
        "FAIL ✗ "@ + f.message
    }
}

/// A verdict says whether its test passed and why, and what decides between two
/// messages decides the verdict too.
pub proof fn law_verdicts(b: bool, good: Seq<char>, bad: Seq<char>, f: Finding)
    ensures
        either(b, good, bad).passed == b,
        b ==> either(b, good, bad).message == good,
        !b ==> either(b, good, bad).message == bad,
        passes(good).passed && !fails(bad).passed,
        f.passed ==> shown(f) == "PASS ✓ "@ + f.message,
        !f.passed ==> shown(f) == "FAIL ✗ "@ + f.message,
{
}

/// A section is run where it or all are wanted and the host meets what it needs,
/// which only silos and bind links do: what they are about.
pub proof fn law_sections(category: Seq<char>, name: Seq<char>, silos: bool, filter: bool)
    ensures
        ({
            let step = section_step(category, name, requirements_met(name, silos, filter));
            let met = (name == "silo"@ ==> silos) && (name == "bindlink"@ ==> filter);
            &&& step == SectionStep::Leave <==> category != "all"@ && category != name
            &&& step == SectionStep::Run <==> (category == "all"@ || category == name) && met
            &&& step == SectionStep::Skip <==> (category == "all"@ || category == name) && !met
        }),
        SECTIONS@.len() == 13,
        SECTIONS@[0]@ == "job"@ && SECTIONS@[1]@ == "process"@ && SECTIONS@[2]@ == "fs"@,
        SECTIONS@[3]@ == "lifecycle"@ && SECTIONS@[4]@ == "exec"@ && SECTIONS@[5]@ == "tools"@,
        SECTIONS@[6]@ == "output"@ && SECTIONS@[7]@ == "env"@ && SECTIONS@[8]@ == "stress"@,
        SECTIONS@[9]@ == "sandbox"@ && SECTIONS@[10]@ == "silo"@ && SECTIONS@[11]@ == "bindlink"@,
        SECTIONS@[12]@ == "network"@,
{
    reveal_strlit("silo");
    reveal_strlit("bindlink");
    assert("silo"@.len() == 4 && "bindlink"@.len() == 8);
}

/// The whole has passed exactly where nothing failed, and both the last line and
/// the exit code say so.
pub proof fn law_outcome(t: Tally)
    ensures
        t.code() == 0 <==> t.failed == 0,
        t.code() == 1 <==> t.failed > 0,
        t.summary().len() == 2,
        t.failed > 0 ==> t.summary()[1] == "  STATUS: SOME TESTS FAILED"@,
        t.failed == 0 ==> t.summary()[1] == "  STATUS: ALL TESTS PASSED ✓"@,
        ("  RESULTS: "@ + decimal(t.passed as nat) + "/"@ + decimal(
            (t.passed + t.failed) as nat,
        )).is_prefix_of(t.summary()[0]),
{
    let a = "  RESULTS: "@ + decimal(t.passed as nat) + "/"@ + decimal((t.passed + t.failed) as nat);
    let b = " passed, "@ + decimal(t.failed as nat) + " failed, "@ + decimal(t.skipped as nat)
        + " sections skipped"@;
    assert(t.summary()[0] == a + b);
    assert((a + b).take(a.len() as int) =~= a);
}

} // verus!

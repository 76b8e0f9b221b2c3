//! The malware scanner: a recorded fixture for tests and local runs, or an
//! external ClamAV command whose exit status decides.

use vstd::prelude::*;

use crate::text::{chars_eq_str, chars_of, string_of};

verus! {

/// The bytes of the EICAR anti-virus test file.
pub open spec fn eicar_seq() -> Seq<u8> {
    seq![
        88u8, 53, 79, 33, 80, 37, 64, 65, 80, 91, 52, 92, 80, 90, 88, 53, 52, 40, 80, 94, 41, 55,
        67, 67, 41, 55, 125, 36, 69, 73, 67, 65, 82, 45, 83, 84, 65, 78, 68, 65, 82, 68, 45, 65,
        78, 84, 73, 86, 73, 82, 85, 83, 45, 84, 69, 83, 84, 45, 70, 73, 76, 69, 33, 36, 72, 43,
        72, 42,
    ]
}

/// The bytes of the EICAR anti-virus test file.
pub fn eicar() -> (r: Vec<u8>)
    ensures
        r@ == eicar_seq(),
{
    let r: Vec<u8> = vec![
        88u8, 53, 79, 33, 80, 37, 64, 65, 80, 91, 52, 92, 80, 90, 88, 53, 52, 40, 80, 94, 41, 55,
        67, 67, 41, 55, 125, 36, 69, 73, 67, 65, 82, 45, 83, 84, 65, 78, 68, 65, 82, 68, 45, 65,
        78, 84, 73, 86, 73, 82, 85, 83, 45, 84, 69, 83, 84, 45, 70, 73, 76, 69, 33, 36, 72, 43,
        72, 42,
    ];
    assert(r@ =~= eicar_seq());
    r
}

/// Whether `pattern` occurs as a contiguous run in `bytes`.
pub open spec fn contains_run(bytes: Seq<u8>, pattern: Seq<u8>) -> bool {
    exists|i: int|
        0 <= i && i + pattern.len() <= bytes.len() && #[trigger] bytes.subrange(
            i,
            i + pattern.len(),
        ) == pattern
}

/// Whether `pattern` occurs as a contiguous run in `bytes`.
pub fn contains_bytes(bytes: &[u8], pattern: &[u8]) -> (r: bool)
    requires
        pattern@.len() > 0,
    ensures
        r == contains_run(bytes@, pattern@),
{
    let n = bytes.len();
    let m = pattern.len();
    let mut i: usize = 0;
    while i < n && n - i >= m
        invariant
            n == bytes@.len(),
            m == pattern@.len(),
            m > 0,
            forall|j: int| 0 <= j < i ==> #[trigger] bytes@.subrange(j, j + m) != pattern@,
        decreases n - i,
    {
        let mut k: usize = 0;
        while k < m && bytes[i + k] == pattern[k]
            invariant
                n == bytes@.len(),
                m == pattern@.len(),
                i + m <= n,
                k <= m,
                forall|t: int| 0 <= t < k ==> bytes@[i + t] == pattern@[t],
            decreases m - k,
        {
            k = k + 1;
        }
        if k == m {
            assert(bytes@.subrange(i as int, i + m) =~= pattern@);
            return true;
        }
        assert(bytes@.subrange(i as int, i + m)[k as int] == bytes@[i + k]);
        i = i + 1;
    }
    assert forall|j: int|
        0 <= j && j + pattern@.len() <= bytes@.len() implies #[trigger] bytes@.subrange(
        j,
        j + pattern@.len(),
    ) != pattern@ by {
        if j >= i {
            assert(false);
        }
    }
    false
}

/// How files are scanned.
#[derive(Clone)]
enum ScannerMode {
    Command(String),
    Fixture,
}

/// Scans uploaded bytes for malware.
#[derive(Clone)]
pub struct MalwareScanner {
    mode: ScannerMode,
}

/// The verdict of a scan.
#[derive(Clone, Debug, PartialEq, Eq)]
pub enum ScanOutcome {
    Clean { engine: String },
    Infected,
    Unavailable,
}

/// What a scan needs next: nothing, because the verdict is known, or a run
/// of the scanner command `program` on the bytes.
#[derive(Clone, Debug)]
pub enum ScanStep {
    Finished(ScanOutcome),
    RunCommand(String),
}

/// How a run of the scanner command ended: with an exit status (whether it
/// signalled success, and its code when it has one), or not at all (the
/// bytes could not be written, the command could not start, or it ran past
/// its time limit).
#[derive(Clone, Debug)]
pub enum CommandRun {
    Exited { success: bool, code: Option<i32> },
    Failed,
}

impl MalwareScanner {
    /// Whether the scanner is the recorded fixture.
    pub closed spec fn is_fixture(&self) -> bool {
        self.mode is Fixture
    }

    /// The command that the scanner runs, when it is not the fixture.
    pub closed spec fn program(&self) -> Seq<char> {
        match self.mode {
            ScannerMode::Command(p) => p@,
            ScannerMode::Fixture => seq![],
        }
    }

    /// The recorded scanner of tests and local runs.
    pub fn fixture() -> (r: MalwareScanner)
        ensures
            r.is_fixture(),
    {
        MalwareScanner { mode: ScannerMode::Fixture }
    }

    /// A scanner that runs `program` on each file.
    pub fn command(program: String) -> (r: MalwareScanner)
        ensures
            !r.is_fixture(),
            r.program() == program@,
    {
        MalwareScanner { mode: ScannerMode::Command(program) }
    }

    /// The scanner that the configuration names: the fixture when the mode
    /// is `fixture`, otherwise the configured command, `clamscan` by default.
    pub fn from_settings(mode: Option<&str>, command: Option<String>) -> (r: MalwareScanner)
        ensures
            (mode matches Some(m) && m@ == "fixture"@) ==> r.is_fixture(),
            !(mode matches Some(m) && m@ == "fixture"@) ==> !r.is_fixture() && r.program() == (
            match command {
                Some(c) => c@,
                None => "clamscan"@,
            }),
    {
        let fixture = match mode {
            Some(m) => chars_eq_str(&chars_of(m), "fixture"),
            None => false,
        };
        if fixture {
            MalwareScanner::fixture()
        } else {
            match command {
                Some(c) => MalwareScanner::command(c),
                None => MalwareScanner::command(string_of(&chars_of("clamscan"))),
            }
        }
    }

    /// The first step of a scan: bytes that hold the EICAR test file are
    /// infected whatever the mode; the fixture finds every other file clean;
    /// a command scanner must run its program.
    pub fn scan(&self, bytes: &[u8]) -> (r: ScanStep)
        ensures
            contains_run(bytes@, eicar_seq()) ==> r matches ScanStep::Finished(ScanOutcome::Infected),
            !contains_run(bytes@, eicar_seq()) && self.is_fixture() ==> (r matches ScanStep::Finished(
                ScanOutcome::Clean { engine },
            ) && engine@ == "recorded-test-scanner"@),
            !contains_run(bytes@, eicar_seq()) && !self.is_fixture() ==> (r matches ScanStep::RunCommand(
                p,
            ) && p@ == self.program()),
    {
        let marker = eicar();
        if contains_bytes(bytes, marker.as_slice()) {
            return ScanStep::Finished(ScanOutcome::Infected);
        }
        match &self.mode {
            ScannerMode::Fixture => ScanStep::Finished(
                ScanOutcome::Clean { engine: string_of(&chars_of("recorded-test-scanner")) },
            ),
            ScannerMode::Command(program) => ScanStep::RunCommand(program.clone()),
        }
    }

    /// The command to run with `--version` to learn whether the scanner is
    /// available; the fixture always is, and needs none.
    pub fn availability_probe(&self) -> (r: Option<String>)
        ensures
            self.is_fixture() <==> r is None,
            r matches Some(p) ==> p@ == self.program(),
    {
        match &self.mode {
            ScannerMode::Fixture => None,
            ScannerMode::Command(program) => Some(program.clone()),
        }
    }
}

/// The verdict that a run of the scanner command gives: a successful exit
/// is clean, exit code 1 is infected, anything else leaves the file
/// unscanned, so the upload fails closed.
pub fn command_outcome(run: &CommandRun) -> (r: ScanOutcome)
    ensures
        match run {
            CommandRun::Exited { success: true, .. } => r matches ScanOutcome::Clean { engine } && engine@
                == "ClamAV"@,
            CommandRun::Exited { success: false, code: Some(1) } => r is Infected,
            _ => r is Unavailable,
        },
{
    match run {
        CommandRun::Exited { success, code } => {
            if *success {
                ScanOutcome::Clean { engine: string_of(&chars_of("ClamAV")) }
            } else {
                match code {
                    Some(c) => if *c == 1 {
                        ScanOutcome::Infected
                    } else {
                        ScanOutcome::Unavailable
                    },
                    None => ScanOutcome::Unavailable,
                }
            }
        },
        CommandRun::Failed => ScanOutcome::Unavailable,
    }
}

} // verus!

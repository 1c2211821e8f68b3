//! The lock probe of the demo: does GL render on a lock surface?
//!
//! A locker that dies without unlocking leaves the session locked, so the probe
//! is guarded before it takes a lock.

use vstd::prelude::*;
use vstd::string::*;
use crate::text::{concat2, concat3, decimal, decimal_of, decimal_signed, decimal_signed_of, same, text_of};

verus! {

/// How long the lock is held at most, in milliseconds.
pub const HOLD_MS: u32 = 3500;

/// Why the lock probe does not run, if it does not: it has to be asked for,
/// and it runs only where the session it would lock is known not to be the
/// host's.
pub open spec fn refusal(probe: Option<Seq<char>>, here: Seq<char>, host: Seq<char>) -> Option<
    Seq<char>,
> {
    if probe != Some("1"@) {
        Some("GLASS_DEMO_LOCK_PROBE=1 not set; run dev/glass-demo/lockprobe.sh"@)
    } else if host.len() == 0 {
        Some("GLASS_DEMO_HOST_DISPLAY unset; refusing to guess"@)
    } else if here == host {
        Some(
            "WAYLAND_DISPLAY="@ + here
                + " is the host session; this probe only runs nested"@,
        )
    } else {
        None
    }
}

/// Why the lock probe does not run, if it does not. Taking a lock is no
/// reversible mistake.
pub fn refuse_reason(probe: Option<&str>, here: &str, host: &str) -> (r: Option<String>)
    ensures
        text_of(r) == refusal(
            match probe {
                Some(p) => Some(p@),
                None => None,
            },
            here@,
            host@,
        ),
{
    let asked = match probe {
        Some(p) => same(p, "1"),
        None => false,
    };
    if !asked {
        return Some(
            "GLASS_DEMO_LOCK_PROBE=1 not set; run dev/glass-demo/lockprobe.sh".to_owned(),
        );
    }
    proof {
        reveal_strlit("");
        if host@.len() == 0 {
            assert(host@ =~= ""@);
        }
    }
    if same(host, "") {
        return Some("GLASS_DEMO_HOST_DISPLAY unset; refusing to guess".to_owned());
    }
    if same(here, host) {
        return Some(
            concat3(
                "WAYLAND_DISPLAY=",
                here,
                " is the host session; this probe only runs nested",
            ),
        );
    }
    None
}

/// The probe never runs against the host's session, nor without being told
/// which that is.
pub proof fn law_the_probe_never_locks_the_host(
    probe: Option<Seq<char>>,
    here: Seq<char>,
    host: Seq<char>,
)
    requires
        refusal(probe, here, host) is None,
    ensures
        probe == Some("1"@),
        host.len() > 0,
        here != host,
{
}

// ── What it says ───────────────────────────────────────────────────────

/// How many frames are drawn before the probe speaks: the first allocates, the
/// second fills the mip chain, and the timer needs one more.
pub const VERDICT_FRAMES: u32 = 4;

/// How a run of the probe ended.
#[derive(Debug, Clone, Copy, PartialEq, Eq, Structural)]
pub enum Outcome {
    /// A guard refused.
    Refused,
    /// GTK did not come up.
    NoToolkit,
    /// The compositor knows no session lock.
    Unsupported,
    /// The lock was not given.
    NoLock,
    /// It ran, and frames were drawn or not.
    Ran(bool),
}

/// The exit code of an outcome.
pub open spec fn code_of(o: Outcome) -> u8 {
    match o {
        Outcome::Ran(true) => 0u8,
        Outcome::Ran(false) => 1u8,
        Outcome::NoToolkit => 1u8,
        Outcome::Refused => 2u8,
        Outcome::Unsupported => 3u8,
        Outcome::NoLock => 4u8,
    }
}

/// The exit code of the probe.
pub fn exit_code(o: Outcome) -> (r: u8)
    ensures
        r == code_of(o),
{
    match o {
        Outcome::Ran(drew) => if drew {
            0
        } else {
            1
        },
        Outcome::NoToolkit => 1,
        Outcome::Refused => 2,
        Outcome::Unsupported => 3,
        Outcome::NoLock => 4,
    }
}

/// What a probe has seen.
#[verifier::ext_equal]
pub struct ProbeModel {
    pub frames: int,
    pub drew: bool,
    pub verdict: Seq<char>,
}

/// What is said where frames were drawn.
pub open spec fn success(w: i32, h: i32, ms: Seq<char>, frames: nat) -> Seq<char> {
    "GtkGLArea renders on an ext-session-lock-v1 surface: "@ + decimal_signed(w as int) + "x"@
        + decimal_signed(h as int) + ", glass pass "@ + ms + " ms GPU, "@ + decimal(frames)
        + " frames drawn"@
}

/// A run of the lock probe.
pub struct Probe {
    frames: u32,
    drew: bool,
    verdict: String,
}

impl View for Probe {
    type V = ProbeModel;

    closed spec fn view(&self) -> ProbeModel {
        ProbeModel { frames: self.frames as int, drew: self.drew, verdict: self.verdict@ }
    }
}

impl Probe {
    /// Nothing was drawn yet.
    pub fn new() -> (r: Probe)
        ensures
            r@ == (ProbeModel {
                frames: 0,
                drew: false,
                verdict: "no render callback ran: GL never started on the lock surface"@,
            }),
    {
        Probe {
            frames: 0,
            drew: false,
            verdict: "no render callback ran: GL never started on the lock surface".to_owned(),
        }
    }

    /// The shader did not come up.
    pub fn shader_failed(&mut self, error: &str)
        ensures
            final(self)@ == (ProbeModel {
                verdict: "GL context came up but the shader failed: "@ + error@,
                ..old(self)@
            }),
    {
        self.verdict = concat2("GL context came up but the shader failed: ", error);
    }

    /// The compositor refused the lock.
    pub fn lock_failed(&mut self)
        ensures
            final(self)@ == (ProbeModel { verdict: "compositor refused the lock"@, ..old(self)@ }),
    {
        self.verdict = "compositor refused the lock".to_owned();
    }

    /// A frame of this size was drawn, its glass pass taking `ms`. Returns
    /// whether this frame settles the verdict and is to be captured.
    pub fn drawn(&mut self, w: i32, h: i32, ms: &str) -> (r: bool)
        requires
            old(self)@.frames < u32::MAX,
        ensures
            r == (old(self)@.frames + 1 >= VERDICT_FRAMES && !old(self)@.drew),
            final(self)@ == (ProbeModel {
                frames: old(self)@.frames + 1,
                drew: old(self)@.drew || r,
                verdict: if r {
                    success(w, h, ms@, (old(self)@.frames + 1) as nat)
                } else {
                    old(self)@.verdict
                },
            }),
    {
        self.frames = self.frames + 1;
        if self.frames < VERDICT_FRAMES || self.drew {
            return false;
        }
        self.drew = true;
        let wide = decimal_signed_of(w as i64);
        let high = decimal_signed_of(h as i64);
        let count = decimal_of(self.frames as u64);
        let mut s = concat3(
            "GtkGLArea renders on an ext-session-lock-v1 surface: ",
            wide.as_str(),
            "x",
        );
        s.append(high.as_str());
        s.append(", glass pass ");
        s.append(ms);
        s.append(" ms GPU, ");
        s.append(count.as_str());
        s.append(" frames drawn");
        self.verdict = s;
        true
    }

    /// How it ended, and what is said of it.
    pub fn ended(&self) -> (r: (Outcome, String))
        ensures
            r.0 == Outcome::Ran(self@.drew),
            r.1@ == self@.verdict,
    {
        (Outcome::Ran(self.drew), self.verdict.clone())
    }
}

/// The probe runs exactly where it is asked to, the host's session is named and
/// another one is open; else it says the first of these that is missing.
pub proof fn law_why_the_probe_refuses(probe: Option<Seq<char>>, here: Seq<char>, host: Seq<char>)
    ensures
        probe is None ==> refusal(probe, here, host) == Some(
            "GLASS_DEMO_LOCK_PROBE=1 not set; run dev/glass-demo/lockprobe.sh"@,
        ),
        probe is Some && probe->0 != "1"@ ==> refusal(probe, here, host) == Some(
            "GLASS_DEMO_LOCK_PROBE=1 not set; run dev/glass-demo/lockprobe.sh"@,
        ),
        probe == Some("1"@) && host.len() == 0 ==> refusal(probe, here, host) == Some(
            "GLASS_DEMO_HOST_DISPLAY unset; refusing to guess"@,
        ),
        probe == Some("1"@) && host.len() > 0 && here == host ==> refusal(probe, here, host)
            == Some(
            "WAYLAND_DISPLAY="@ + here + " is the host session; this probe only runs nested"@,
        ),
        probe == Some("1"@) && host.len() > 0 && here != host ==> refusal(probe, here, host)
            is None,
        HOLD_MS == 3500,
        VERDICT_FRAMES == 4,
{
}

/// What is said of a run that drew: its size, the time of its glass pass and its
/// frames, in this order.
pub proof fn law_what_a_run_that_drew_says(w: i32, h: i32, ms: Seq<char>, frames: nat)
    ensures
        success(w, h, ms, frames) == "GtkGLArea renders on an ext-session-lock-v1 surface: "@ + (
        decimal_signed(w as int) + ("x"@ + (decimal_signed(h as int) + (", glass pass "@ + (ms + (
        " ms GPU, "@ + (decimal(frames) + " frames drawn"@))))))),
{
    let a = "GtkGLArea renders on an ext-session-lock-v1 surface: "@;
    let e = decimal(frames) + " frames drawn"@;
    assert(success(w, h, ms, frames) =~= a + (decimal_signed(w as int) + ("x"@ + (decimal_signed(
        h as int,
    ) + (", glass pass "@ + (ms + (" ms GPU, "@ + e)))))));
}

/// The probe succeeds exactly where it ran and drew. A refusal, a compositor
/// without a lock and a lock that was not given each have a code of their own;
/// what did not come up or did not draw shares one.
pub proof fn law_what_the_exit_code_tells(o: Outcome)
    ensures
        code_of(o) == 0 <==> o == Outcome::Ran(true),
        code_of(o) == 1 <==> o == Outcome::Ran(false) || o is NoToolkit,
        code_of(o) == 2 <==> o is Refused,
        code_of(o) == 3 <==> o is Unsupported,
        code_of(o) == 4 <==> o is NoLock,
{
}

} // verus!

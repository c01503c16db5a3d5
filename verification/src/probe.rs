//! The core side of the daemon liveness probe: resolving the configured
//! pid-file path against the data directory, reading a process id out of
//! the file's text, and folding the outside observations into the
//! tri-state status the interface shows.  Reading the file and querying
//! the process table are outside work; this module only decides.
use vstd::prelude::*;

use crate::text::{chars_to_string, str_to_chars, trim, trim_chars};

verus! {

/// Whether the daemon's recorded process is currently running; `Unknown`
/// when no pid file is configured or its contents could not be read.
#[derive(Debug, Clone, Copy, PartialEq, Eq, Structural)]
pub enum ProbeStatus {
    Running,
    Stopped,
    Unknown,
}

/// Resolves the configured pid-file path: an empty setting means no pid
/// file, an absolute path stands as it is, and a relative one is joined
/// under the data directory.
pub fn resolve_pid_path(datadir: &str, pid: &str) -> (r: Option<String>)
    ensures
        match r {
            None => pid@.len() == 0,
            Some(p) => {
                &&& pid@.len() > 0
                &&& pid@[0] == '/' ==> p@ == pid@
                &&& pid@[0] != '/' ==> p@ == datadir@ + seq!['/'] + pid@
            },
        },
{
    let n = pid.unicode_len();
    if n == 0 {
        return None;
    }
    if pid.get_char(0) == '/' {
        return Some(pid.to_owned());
    }
    let mut out = str_to_chars(datadir);
    out.push('/');
    proof {
        assert(out@ =~= datadir@ + seq!['/']);
    }
    crate::text::append_str(&mut out, pid);
    Some(chars_to_string(&out))
}

/// Whether `c` is a decimal digit.
pub open spec fn is_digit(c: char) -> bool {
    '0' <= c <= '9'
}

/// The numeric value of a digit sequence, most significant first.
pub open spec fn digits_val(s: Seq<char>) -> int
    decreases s.len(),
{
    if s.len() == 0 {
        0
    } else {
        digits_val(s.drop_last()) * 10 + (s.last() as int - '0' as int)
    }
}

proof fn lemma_digits_val_bounds(s: Seq<char>)
    requires
        forall|i: int| 0 <= i < s.len() ==> is_digit(#[trigger] s[i]),
    ensures
        digits_val(s) >= 0,
        s.len() > 0 ==> digits_val(s) >= digits_val(s.drop_last()),
    decreases s.len(),
{
    if s.len() > 0 {
        lemma_digits_val_bounds(s.drop_last());
    }
}

proof fn lemma_digits_val_monotone(s: Seq<char>, i: int)
    requires
        forall|j: int| 0 <= j < s.len() ==> is_digit(#[trigger] s[j]),
        0 <= i <= s.len(),
    ensures
        digits_val(s) >= digits_val(s.take(i)),
    decreases s.len() - i,
{
    if i < s.len() {
        lemma_digits_val_monotone(s, i + 1);
        assert(s.take(i + 1).drop_last() =~= s.take(i));
        assert(s.take(i + 1).last() == s[i]);
        lemma_digits_val_bounds(s.take(i));
        assert(digits_val(s.take(i + 1)) == digits_val(s.take(i)) * 10 + (s[i] as int
            - '0' as int));
        assert(digits_val(s.take(i)) * 10 >= digits_val(s.take(i))) by (nonlinear_arith)
            requires digits_val(s.take(i)) >= 0;
    } else {
        assert(s.take(i) =~= s);
    }
}

/// Reads a process id out of a pid file's text: the trimmed contents must
/// be one or more decimal digits whose value fits, else nothing.
pub fn parse_pid(text: &str) -> (r: Option<u64>)
    ensures
        match r {
            Some(v) => {
                let t = trim(text@);
                &&& t.len() > 0
                &&& forall|i: int| 0 <= i < t.len() ==> is_digit(#[trigger] t[i])
                &&& v as int == digits_val(t)
            },
            None => {
                let t = trim(text@);
                ||| t.len() == 0
                ||| exists|i: int| 0 <= i < t.len() && !is_digit(#[trigger] t[i])
                ||| digits_val(t) > u64::MAX
            },
        },
{
    let chars = str_to_chars(text);
    let t = trim_chars(&chars);
    if t.len() == 0 {
        return None;
    }
    let mut val: u64 = 0;
    let mut i: usize = 0;
    proof {
        assert(t@.take(0) =~= Seq::<char>::empty());
    }
    while i < t.len()
        invariant
            i <= t@.len(),
            t@ == trim(chars@),
            chars@ == text@,
            forall|j: int| 0 <= j < i ==> is_digit(#[trigger] t@[j]),
            val as int == digits_val(t@.take(i as int)),
        decreases t@.len() - i,
    {
        let c = t[i];
        if !('0' <= c && c <= '9') {
            return None;
        }
        let d: u64 = (c as u32 as u64) - ('0' as u32 as u64);
        let stepped = match val.checked_mul(10) {
            Some(m) => m.checked_add(d),
            None => None,
        };
        proof {
            assert(t@.take(i as int + 1).drop_last() =~= t@.take(i as int));
            assert(t@.take(i as int + 1).last() == t@[i as int]);
        }
        match stepped {
            Some(nv) => {
                val = nv;
            },
            None => {
                proof {
                    assert(digits_val(t@.take(i as int + 1)) > u64::MAX);
                    assert(forall|j: int|
                        0 <= j < t@.take(i as int + 1).len() ==> is_digit(
                            #[trigger] t@.take(i as int + 1)[j],
                        ));
                    // either the rest is all digits too — then the whole
                    // value only grows — or a later character already
                    // disqualifies the text
                    if forall|j: int| 0 <= j < t@.len() ==> is_digit(#[trigger] t@[j]) {
                        lemma_digits_val_monotone(t@, i as int + 1);
                    }
                }
                return None;
            },
        }
        i += 1;
    }
    proof {
        assert(t@.take(t@.len() as int) =~= t@);
    }
    Some(val)
}

/// Folds the outside observations into the tri-state status: no readable
/// pid means `Unknown`; otherwise the process table's answer decides.
pub fn probe_status(pid: Option<u64>, alive: bool) -> (r: ProbeStatus)
    ensures
        pid is None ==> r == ProbeStatus::Unknown,
        pid is Some && alive ==> r == ProbeStatus::Running,
        pid is Some && !alive ==> r == ProbeStatus::Stopped,
{
    match pid {
        None => ProbeStatus::Unknown,
        Some(_) => {
            if alive {
                ProbeStatus::Running
            } else {
                ProbeStatus::Stopped
            }
        },
    }
}

} // verus!

//! Signal names and numbers.
//!
//! `kill` accepts the usual POSIX names, with or without a `SIG` prefix and
//! in any case, and numeric signals; anything else is an invalid signal.

use vstd::prelude::*;

use crate::error::RuntimeError;
use crate::json::code_char;
use crate::numfmt::{all_digits, dec_val, digit_val, is_digit, lemma_dec_val_lower,
    lemma_dec_val_strip_zero, lemma_pow10_mono, pow10};
use crate::strutil::{chars_eq_str, chars_of_str};
use crate::sys::chars_to_string;

verus! {

/// A lower-case letter raised to upper case; anything else unchanged.
pub open spec fn upper_char(c: char) -> char {
    if 97 <= c as u32 <= 122 {
        code_char(c as u32 - 32)
    } else {
        c
    }
}

/// A word raised to upper case, letter by letter.
pub open spec fn upper_seq(s: Seq<char>) -> Seq<char> {
    Seq::new(s.len(), |i: int| upper_char(s[i]))
}

/// The signal numbers of the accepted names, without the `SIG` prefix.
pub open spec fn signal_table(n: Seq<char>) -> Option<i32> {
    if n == "HUP"@ {
        Some(1i32)
    } else if n == "INT"@ {
        Some(2i32)
    } else if n == "QUIT"@ {
        Some(3i32)
    } else if n == "KILL"@ {
        Some(9i32)
    } else if n == "USR1"@ {
        Some(10i32)
    } else if n == "USR2"@ {
        Some(12i32)
    } else if n == "PIPE"@ {
        Some(13i32)
    } else if n == "TERM"@ {
        Some(15i32)
    } else if n == "CHLD"@ {
        Some(17i32)
    } else if n == "CONT"@ {
        Some(18i32)
    } else if n == "STOP"@ {
        Some(19i32)
    } else if n == "TSTP"@ {
        Some(20i32)
    } else if n == "WINCH"@ {
        Some(28i32)
    } else {
        None
    }
}

/// The signal a word stands for: a run of digits is taken as a number
/// between 1 and 64; any other word is raised to upper case, stripped of a
/// leading `SIG`, and looked up in the name table.
pub open spec fn spec_signal_of(raw: Seq<char>) -> Option<i32> {
    if raw.len() >= 1 && all_digits(raw) {
        if 1 <= dec_val(raw) <= 64 {
            Some(dec_val(raw) as i32)
        } else {
            None
        }
    } else {
        let up = upper_seq(raw);
        let name = if up.len() >= 3 && up.subrange(0, 3) == "SIG"@ {
            up.subrange(3, up.len() as int)
        } else {
            up
        };
        signal_table(name)
    }
}

fn upper_char_x(c: char) -> (r: char)
    ensures
        r == upper_char(c),
{
    let u = c as u32;
    if 97 <= u && u <= 122 {
        ((u - 32) as u8) as char
    } else {
        c
    }
}

fn all_digits_x(cs: &Vec<char>) -> (r: bool)
    ensures
        r == all_digits(cs@),
{
    let n = cs.len();
    let mut i: usize = 0;
    while i < n
        invariant
            i <= n,
            n == cs@.len(),
            forall|k: int| 0 <= k < i ==> is_digit(#[trigger] cs@[k]),
        decreases n - i,
    {
        let u = cs[i] as u32;
        if !(48 <= u && u <= 57) {
            proof {
                assert(!is_digit(cs@[i as int]));
            }
            return false;
        }
        i = i + 1;
    }
    true
}

/// Resolves a signal word to its number, or reports it invalid.
pub fn from_str(s: &str) -> (r: Result<i32, RuntimeError>)
    ensures
        r matches Ok(v) ==> spec_signal_of(s@) == Some(v),
        r is Err ==> spec_signal_of(s@) is None && r matches Err(RuntimeError::InvalidSignal(_)),
{
    let cs = chars_of_str(s);
    if cs.len() >= 1 && all_digits_x(&cs) {
        let n = cs.len();
        proof {
            assert(cs@.subrange(0, n as int) =~= cs@);
        }
        // Leading zeros do not change the number.
        let mut z: usize = 0;
        while z < n && cs[z] == '0'
            invariant
                z <= n,
                n == cs@.len(),
                all_digits(cs@),
                dec_val(cs@.subrange(z as int, n as int)) == dec_val(cs@),
            decreases n - z,
        {
            proof {
                let t = cs@.subrange(z as int, n as int);
                lemma_dec_val_strip_zero(t);
                assert(t.drop_first() =~= cs@.subrange(z as int + 1, n as int));
            }
            z = z + 1;
        }
        proof {
            assert(cs@.subrange(0, n as int) =~= cs@);
        }
        let ghost t = cs@.subrange(z as int, n as int);
        proof {
            assert forall|k: int| 0 <= k < t.len() implies is_digit(#[trigger] t[k]) by {
                assert(t[k] == cs@[k + z]);
            }
        }
        if n - z > 2 {
            // Three or more digits with no leading zero: at least 100.
            proof {
                lemma_dec_val_lower(t);
                lemma_pow10_mono(2, (t.len() - 1) as nat);
                assert(pow10(0) == 1);
                assert(pow10(1) == 10);
                assert(pow10(2) == 100);
            }
            return Err(RuntimeError::InvalidSignal(chars_to_string(&cs)));
        }
        let mut v: u32 = 0;
        if z == n {
            proof {
                assert(t =~= Seq::<char>::empty());
                assert(v == dec_val(t));
            }
        } else if n - z == 1 {
            proof {
                assert(t.drop_last() =~= Seq::<char>::empty());
                assert(t.last() == cs@[z as int]);
                assert(is_digit(cs@[z as int]));
            }
            v = cs[z] as u32 - 48;
            proof {
                assert(dec_val(Seq::<char>::empty()) == 0);
                assert(dec_val(t) == dec_val(t.drop_last()) * 10 + digit_val(t.last()));
                assert(v == dec_val(t));
            }
        } else {
            proof {
                assert(t.last() == cs@[n as int - 1]);
                assert(t.drop_last() =~= cs@.subrange(z as int, n as int - 1));
                assert(t.drop_last().drop_last() =~= Seq::<char>::empty());
                assert(t.drop_last().last() == cs@[z as int]);
                assert(is_digit(cs@[z as int]) && is_digit(cs@[n as int - 1]));
            }
            v = (cs[z] as u32 - 48) * 10 + (cs[n - 1] as u32 - 48);
            proof {
                assert(dec_val(Seq::<char>::empty()) == 0);
                assert(dec_val(t.drop_last()) == dec_val(t.drop_last().drop_last()) * 10
                    + digit_val(t.drop_last().last()));
                assert(dec_val(t.drop_last()) == digit_val(cs@[z as int]));
                assert(dec_val(t) == dec_val(t.drop_last()) * 10 + digit_val(t.last()));
                assert(v == dec_val(t));
            }
        }
        proof {
            assert(v == dec_val(t));
        }
        if 1 <= v && v <= 64 {
            Ok(v as i32)
        } else {
            Err(RuntimeError::InvalidSignal(chars_to_string(&cs)))
        }
    } else {
        // Raise to upper case.
        let n = cs.len();
        let mut up: Vec<char> = Vec::new();
        let mut i: usize = 0;
        while i < n
            invariant
                i <= n,
                n == cs@.len(),
                up@.len() == i,
                forall|k: int| 0 <= k < i ==> #[trigger] up@[k] == upper_char(cs@[k]),
            decreases n - i,
        {
            up.push(upper_char_x(cs[i]));
            i = i + 1;
        }
        proof {
            assert(up@ =~= upper_seq(cs@));
        }
        // Strip a leading SIG.
        let stripped = if up.len() >= 3 && up[0] == 'S' && up[1] == 'I' && up[2] == 'G' {
            proof {
                reveal_strlit("SIG");
                assert(up@.subrange(0, 3) =~= "SIG"@);
            }
            let mut name: Vec<char> = Vec::new();
            let m = up.len();
            let mut j: usize = 3;
            while j < m
                invariant
                    3 <= j <= m,
                    m == up@.len(),
                    name@ == up@.subrange(3, j as int),
                decreases m - j,
            {
                name.push(up[j]);
                proof {
                    assert(name@ =~= up@.subrange(3, j as int + 1));
                }
                j = j + 1;
            }
            name
        } else {
            proof {
                reveal_strlit("SIG");
                if up@.len() >= 3 && up@.subrange(0, 3) == "SIG"@ {
                    assert(up@[0] == up@.subrange(0, 3)[0]);
                    assert(up@[1] == up@.subrange(0, 3)[1]);
                    assert(up@[2] == up@.subrange(0, 3)[2]);
                }
            }
            up
        };
        let num = if chars_eq_str(&stripped, "HUP") {
            Some(1i32)
        } else if chars_eq_str(&stripped, "INT") {
            Some(2i32)
        } else if chars_eq_str(&stripped, "QUIT") {
            Some(3i32)
        } else if chars_eq_str(&stripped, "KILL") {
            Some(9i32)
        } else if chars_eq_str(&stripped, "USR1") {
            Some(10i32)
        } else if chars_eq_str(&stripped, "USR2") {
            Some(12i32)
        } else if chars_eq_str(&stripped, "PIPE") {
            Some(13i32)
        } else if chars_eq_str(&stripped, "TERM") {
            Some(15i32)
        } else if chars_eq_str(&stripped, "CHLD") {
            Some(17i32)
        } else if chars_eq_str(&stripped, "CONT") {
            Some(18i32)
        } else if chars_eq_str(&stripped, "STOP") {
            Some(19i32)
        } else if chars_eq_str(&stripped, "TSTP") {
            Some(20i32)
        } else if chars_eq_str(&stripped, "WINCH") {
            Some(28i32)
        } else {
            None
        };
        match num {
            Some(v) => Ok(v),
            None => Err(RuntimeError::InvalidSignal(chars_to_string(&cs))),
        }
    }
}

} // verus!

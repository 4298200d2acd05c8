//! Startup-time configuration helpers: the listen-port validator and the
//! upstream URL built from the configured station location.

use vstd::prelude::*;
use crate::text::is_digit;

verus! {

/// The numeric value of a digit string.
pub open spec fn dec_val(s: Seq<char>) -> nat
    decreases s.len(),
{
    if s.len() == 0 {
        0
    } else {
        dec_val(s.drop_last()) * 10 + (if s.last() as u32 >= 48 {
            (s.last() as u32 - 48) as nat
        } else {
            0
        })
    }
}

/// The digits of a port text: what remains after an optional leading `+`.
pub open spec fn port_body(s: Seq<char>) -> Seq<char> {
    if s.len() > 0 && s[0] == '+' {
        s.subrange(1, s.len() as int)
    } else {
        s
    }
}

/// Port text as the validator accepts it: an optional `+`, then digits whose
/// value fits in sixteen bits.
pub open spec fn is_port_text(s: Seq<char>) -> bool {
    let t = port_body(s);
    &&& t.len() > 0
    &&& forall|i: int| 0 <= i < t.len() ==> is_digit(#[trigger] t[i])
    &&& dec_val(t) <= 65535
}

proof fn lemma_dec_val_take(s: Seq<char>, k: int)
    requires
        0 <= k < s.len(),
    ensures
        dec_val(s.take(k + 1)) == dec_val(s.take(k)) * 10 + (if s[k] as u32 >= 48 {
            (s[k] as u32 - 48) as nat
        } else {
            0nat
        }),
{
    assert(s.take(k + 1).drop_last() =~= s.take(k));
    assert(s.take(k + 1).last() == s[k]);
}

proof fn lemma_dec_val_grows(s: Seq<char>, k: int)
    requires
        0 <= k <= s.len(),
    ensures
        dec_val(s) >= dec_val(s.take(k)),
    decreases s.len() - k,
{
    if k < s.len() {
        lemma_dec_val_take(s, k);
        lemma_dec_val_grows(s, k + 1);
        assert(dec_val(s.take(k + 1)) >= dec_val(s.take(k)));
    } else {
        assert(s.take(k) =~= s);
    }
}

/// Validates a listen-port argument: accepted exactly when the text is a
/// decimal integer that fits a port number. On refusal the message of the
/// original command-line validator is handed back.
pub fn parse_port(v: String) -> (r: Result<(), String>)
    ensures
        r is Ok <==> is_port_text(v@),
        r matches Err(m) ==> m@ == "listen_port needs to be an integer between 1 - 65535"@,
{
    let s = v.as_str();
    let n = s.unicode_len();
    let start: usize = if n > 0 && s.get_char(0) == '+' {
        1
    } else {
        0
    };
    let ghost t = s@.subrange(start as int, n as int);
    proof {
        if s@.len() > 0 && s@[0] == '+' {
            assert(t =~= s@.subrange(1, s@.len() as int));
        } else {
            assert(t =~= s@);
        }
        assert(t == port_body(v@));
    }
    if start == n {
        return Err("listen_port needs to be an integer between 1 - 65535".to_owned());
    }
    let mut i: usize = start;
    let mut val: u32 = 0;
    while i < n
        invariant
            start <= i <= n,
            n == s@.len(),
            v@ == s@,
            start as int == (if s@.len() > 0 && s@[0] == '+' {
                1int
            } else {
                0int
            }),
            t == s@.subrange(start as int, n as int),
            t == port_body(v@),
            val == dec_val(t.take(i - start)),
            val <= 65535,
            forall|k: int| 0 <= k < i - start ==> is_digit(#[trigger] t[k]),
        decreases n - i,
    {
        let c = s.get_char(i);
        let u = c as u32;
        proof {
            assert(t[i - start] == s@[i as int]);
            lemma_dec_val_take(t, i - start);
        }
        if !(48 <= u && u <= 57) {
            proof {
                assert(!is_digit(t[i - start]));
                assert(!is_port_text(v@));
            }
            return Err("listen_port needs to be an integer between 1 - 65535".to_owned());
        }
        let next: u32 = val * 10 + (u - 48);
        if next > 65535 {
            proof {
                lemma_dec_val_grows(t, i - start + 1);
                assert(dec_val(t) > 65535);
                assert(!is_port_text(v@));
            }
            return Err("listen_port needs to be an integer between 1 - 65535".to_owned());
        }
        val = next;
        i = i + 1;
    }
    proof {
        assert(t.take(n - start) =~= t);
        assert(forall|k: int| 0 <= k < t.len() ==> is_digit(#[trigger] t[k]));
    }
    Ok(())
}

/// The upstream document URL for a station location.
pub open spec fn spec_upstream_url(location: Seq<char>) -> Seq<char> {
    "http://www.victoriaweather.ca/stations/"@ + location + "/current.xml"@
}

/// Builds the URL of the station's current-conditions document.
pub fn upstream_url(location: &str) -> (r: String)
    ensures
        r@ == spec_upstream_url(location@),
{
    let mut out = String::from_str("http://www.victoriaweather.ca/stations/");
    out.append(location);
    out.append("/current.xml");
    proof {
        assert(out@ =~= spec_upstream_url(location@));
    }
    out
}

/// One decimal digit as text.
pub open spec fn spec_digit(d: nat) -> Seq<char> {
    if d == 0 {
        "0"@
    } else if d == 1 {
        "1"@
    } else if d == 2 {
        "2"@
    } else if d == 3 {
        "3"@
    } else if d == 4 {
        "4"@
    } else if d == 5 {
        "5"@
    } else if d == 6 {
        "6"@
    } else if d == 7 {
        "7"@
    } else if d == 8 {
        "8"@
    } else {
        "9"@
    }
}

/// A number rendered in decimal, most significant digit first.
pub open spec fn spec_dec_str(n: nat) -> Seq<char>
    decreases n,
{
    if n < 10 {
        spec_digit(n)
    } else {
        spec_dec_str(n / 10) + spec_digit(n % 10)
    }
}

fn digit_str(d: u16) -> (r: &'static str)
    requires
        d < 10,
    ensures
        r@ == spec_digit(d as nat),
{
    if d == 0 {
        "0"
    } else if d == 1 {
        "1"
    } else if d == 2 {
        "2"
    } else if d == 3 {
        "3"
    } else if d == 4 {
        "4"
    } else if d == 5 {
        "5"
    } else if d == 6 {
        "6"
    } else if d == 7 {
        "7"
    } else if d == 8 {
        "8"
    } else {
        "9"
    }
}

/// Renders a status code in decimal.
pub fn render_u16(x: u16) -> (r: String)
    ensures
        r@ == spec_dec_str(x as nat),
    decreases x,
{
    if x < 10 {
        digit_str(x).to_owned()
    } else {
        let rest = render_u16(x / 10);
        rest.concat(digit_str(x % 10))
    }
}

} // verus!

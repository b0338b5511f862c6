//! Hex formatting of USB ids inside serialized configuration text.
//!
//! Serialized configuration writes `vid` and `pid` values in decimal; this
//! pass rewrites every `"vid":` or `"pid":` key followed by a decimal number
//! into the same key followed by the number as `0x`-prefixed, four-digit
//! upper-case hex. Values that do not fit a 16-bit id are written as zero.
//! The scan works on the UTF-8 bytes of the text: the patterns are pure
//! ASCII, and bytes of multi-byte characters never resemble them.

use vstd::prelude::*;

verus! {

/// The bytes of the `"vid":` key.
pub open spec fn vid_key() -> Seq<u8> {
    seq![34u8, 118u8, 105u8, 100u8, 34u8, 58u8]
}

/// The bytes of the `"pid":` key.
pub open spec fn pid_key() -> Seq<u8> {
    seq![34u8, 112u8, 105u8, 100u8, 34u8, 58u8]
}

/// The bytes put between the key and the hex digits: a space, then `0x`.
pub open spec fn hex_marker() -> Seq<u8> {
    seq![32u8, 48u8, 120u8]
}

/// An ASCII whitespace byte.
pub open spec fn is_space_byte(b: u8) -> bool {
    b == 32 || b == 9 || b == 10 || b == 13
}

/// An ASCII decimal digit byte.
pub open spec fn is_digit_byte(b: u8) -> bool {
    48 <= b && b <= 57
}

/// How many whitespace bytes the sequence starts with.
pub open spec fn leading_spaces(s: Seq<u8>) -> nat
    decreases s.len(),
{
    if s.len() > 0 && is_space_byte(s[0]) {
        1 + leading_spaces(s.skip(1))
    } else {
        0
    }
}

/// How many digit bytes the sequence starts with.
pub open spec fn leading_digits(s: Seq<u8>) -> nat
    decreases s.len(),
{
    if s.len() > 0 && is_digit_byte(s[0]) {
        1 + leading_digits(s.skip(1))
    } else {
        0
    }
}

/// The number a sequence of digit bytes denotes in decimal.
pub open spec fn dec_value(digits: Seq<u8>) -> nat
    decreases digits.len(),
{
    if digits.len() == 0 {
        0
    } else {
        dec_value(digits.drop_last()) * 10 + (digits.last() - 48) as nat
    }
}

/// The id a digit run stands for: its decimal value, or zero when the value
/// does not fit a 16-bit id.
pub open spec fn parsed_id(digits: Seq<u8>) -> nat {
    if dec_value(digits) <= 65535 {
        dec_value(digits)
    } else {
        0
    }
}

/// The byte of one hex digit value, upper case.
pub open spec fn spec_hex_digit(d: nat) -> u8 {
    if d < 10 {
        (48 + d) as u8
    } else {
        (55 + d) as u8
    }
}

/// The four hex digit bytes of a 16-bit value, most significant first.
pub open spec fn spec_hex4(n: nat) -> Seq<u8> {
    seq![
        spec_hex_digit(n / 4096 % 16),
        spec_hex_digit(n / 256 % 16),
        spec_hex_digit(n / 16 % 16),
        spec_hex_digit(n % 16),
    ]
}

/// The suffix starts with a `"vid":` or `"pid":` key, then optional
/// whitespace, then at least one decimal digit, all within bounds.
pub open spec fn usb_match_at(s: Seq<u8>) -> bool {
    &&& s.len() >= 6
    &&& (s.subrange(0, 6) == vid_key() || s.subrange(0, 6) == pid_key())
    &&& leading_digits(s.skip(6 + leading_spaces(s.skip(6)) as int)) >= 1
    &&& 6 + leading_spaces(s.skip(6)) + leading_digits(
        s.skip(6 + leading_spaces(s.skip(6)) as int),
    ) <= s.len()
}

/// The rewritten text: every key-and-number occurrence becomes the key, one
/// space, and the `0x`-prefixed hex id; all other bytes are kept as they
/// are.
pub open spec fn rewrite_usb_ids(s: Seq<u8>) -> Seq<u8>
    decreases s.len(),
{
    if s.len() == 0 {
        s
    } else if usb_match_at(s) {
        let ws = leading_spaces(s.skip(6)) as int;
        let ds = leading_digits(s.skip(6 + ws)) as int;
        s.subrange(0, 6) + hex_marker() + spec_hex4(parsed_id(s.subrange(6 + ws, 6 + ws + ds)))
            + rewrite_usb_ids(s.skip(6 + ws + ds))
    } else {
        seq![s[0]] + rewrite_usb_ids(s.skip(1))
    }
}

/// If everything from `p` up to `q` is whitespace and `q` is the end or not
/// whitespace, the leading whitespace of the suffix at `p` ends at `q`.
proof fn lemma_leading_spaces_range(s: Seq<u8>, p: int, q: int)
    requires
        0 <= p <= q <= s.len(),
        forall|t: int| p <= t < q ==> is_space_byte(#[trigger] s[t]),
        q == s.len() || !is_space_byte(s[q]),
    ensures
        leading_spaces(s.skip(p)) == q - p,
    decreases q - p,
{
    if p == q {
        if s.skip(p).len() > 0 {
            assert(s.skip(p)[0] == s[p]);
        }
    } else {
        assert(s.skip(p)[0] == s[p]);
        assert(s.skip(p).skip(1) =~= s.skip(p + 1));
        lemma_leading_spaces_range(s, p + 1, q);
    }
}

/// If everything from `p` up to `q` is a digit and `q` is the end or not a
/// digit, the leading digit run of the suffix at `p` ends at `q`.
proof fn lemma_leading_digits_range(s: Seq<u8>, p: int, q: int)
    requires
        0 <= p <= q <= s.len(),
        forall|t: int| p <= t < q ==> is_digit_byte(#[trigger] s[t]),
        q == s.len() || !is_digit_byte(s[q]),
    ensures
        leading_digits(s.skip(p)) == q - p,
    decreases q - p,
{
    if p == q {
        if s.skip(p).len() > 0 {
            assert(s.skip(p)[0] == s[p]);
        }
    } else {
        assert(s.skip(p)[0] == s[p]);
        assert(s.skip(p).skip(1) =~= s.skip(p + 1));
        lemma_leading_digits_range(s, p + 1, q);
    }
}

/// The byte of one hex digit value, upper case.
fn hex_digit_byte(d: u32) -> (r: u8)
    requires
        d < 16,
    ensures
        r == spec_hex_digit(d as nat),
{
    if d < 10 {
        (48 + d) as u8
    } else {
        (55 + d) as u8
    }
}

/// Find the end of the whitespace run starting at `from`.
#[verifier::loop_isolation(false)]
fn skip_spaces(content: &[u8], from: usize) -> (j: usize)
    requires
        from <= content@.len(),
    ensures
        from <= j <= content@.len(),
        leading_spaces(content@.skip(from as int)) == j - from,
{
    let ghost s = content@;
    let mut j = from;
    while j < content.len() && (content[j] == 32 || content[j] == 9 || content[j] == 10
        || content[j] == 13)
        invariant
            from <= j <= s.len(),
            forall|t: int| from <= t < j ==> is_space_byte(#[trigger] s[t]),
        decreases s.len() - j,
    {
        j = j + 1;
    }
    proof {
        lemma_leading_spaces_range(s, from as int, j as int);
    }
    j
}

/// Find the end of the digit run starting at `from` and the id it stands
/// for: its decimal value, or zero when the value does not fit 16 bits.
#[verifier::loop_isolation(false)]
fn scan_digits(content: &[u8], from: usize) -> (r: (usize, u32))
    requires
        from <= content@.len(),
    ensures
        from <= r.0 <= content@.len(),
        leading_digits(content@.skip(from as int)) == r.0 - from,
        r.1 as nat == parsed_id(content@.subrange(from as int, r.0 as int)),
        r.1 <= 65535,
{
    let ghost s = content@;
    let mut k = from;
    let mut acc: u32 = 0;
    while k < content.len() && 48 <= content[k] && content[k] <= 57
        invariant
            from <= k <= s.len(),
            forall|t: int| from <= t < k ==> is_digit_byte(#[trigger] s[t]),
            (dec_value(s.subrange(from as int, k as int)) <= 65535 && acc == dec_value(
                s.subrange(from as int, k as int),
            )) || (dec_value(s.subrange(from as int, k as int)) > 65535 && acc == 66000),
        decreases s.len() - k,
    {
        proof {
            assert(s.subrange(from as int, k as int + 1).drop_last() =~= s.subrange(
                from as int,
                k as int,
            ));
            assert(s.subrange(from as int, k as int + 1).last() == s[k as int]);
        }
        let d = (content[k] - 48) as u32;
        if acc <= 65535 {
            let n = acc * 10 + d;
            if n <= 65535 {
                acc = n;
            } else {
                acc = 66000;
            }
        }
        k = k + 1;
    }
    proof {
        lemma_leading_digits_range(s, from as int, k as int);
    }
    let v: u32 = if acc <= 65535 {
        acc
    } else {
        0
    };
    (k, v)
}

/// Append the four hex digit bytes of a 16-bit value.
fn push_hex4(out: &mut Vec<u8>, v: u32)
    requires
        v <= 65535,
    ensures
        final(out)@ == old(out)@ + spec_hex4(v as nat),
{
    let ghost out0 = out@;
    out.push(hex_digit_byte(v / 4096 % 16));
    out.push(hex_digit_byte(v / 256 % 16));
    out.push(hex_digit_byte(v / 16 % 16));
    out.push(hex_digit_byte(v % 16));
    proof {
        assert(out@ =~= out0 + spec_hex4(v as nat));
    }
}

/// Rewrite every USB id occurrence in serialized configuration text: each
/// `"vid":` or `"pid":` key followed by a decimal number becomes the key,
/// one space, and the id as `0x`-prefixed four-digit upper-case hex.
#[verifier::loop_isolation(false)]
#[verifier::rlimit(60)]
pub fn format_usb_ids_as_hex(content: &[u8]) -> (r: Vec<u8>)
    ensures
        r@ == rewrite_usb_ids(content@),
{
    let ghost s = content@;
    let mut out: Vec<u8> = Vec::new();
    let mut i: usize = 0;
    proof {
        assert(s.skip(0) =~= s);
        assert(out@ + rewrite_usb_ids(s) =~= rewrite_usb_ids(s));
    }
    while i < content.len()
        invariant
            i <= s.len(),
            rewrite_usb_ids(s) == out@ + rewrite_usb_ids(s.skip(i as int)),
        decreases s.len() - i,
    {
        let ghost t = s.skip(i as int);
        let ghost out0 = out@;
        if content.len() - i >= 6 && content[i] == 34 && (content[i + 1] == 118 || content[i + 1]
            == 112) && content[i + 2] == 105 && content[i + 3] == 100 && content[i + 4] == 34
            && content[i + 5] == 58 {
            proof {
                if s[i as int + 1] == 118 {
                    assert(t.subrange(0, 6) =~= vid_key());
                } else {
                    assert(t.subrange(0, 6) =~= pid_key());
                }
            }
            let j = skip_spaces(content, i + 6);
            proof {
                assert(t.skip(6) =~= s.skip(i as int + 6));
            }
            let ghost ws = leading_spaces(t.skip(6)) as int;
            let (k, v) = scan_digits(content, j);
            proof {
                assert(t.skip(6 + ws) =~= s.skip(j as int));
            }
            let ghost ds = leading_digits(t.skip(6 + ws)) as int;
            if k > j {
                proof {
                    assert(usb_match_at(t));
                }
                out.push(content[i]);
                out.push(content[i + 1]);
                out.push(content[i + 2]);
                out.push(content[i + 3]);
                out.push(content[i + 4]);
                out.push(content[i + 5]);
                out.push(32);
                out.push(48);
                out.push(120);
                proof {
                    assert(out@ =~= out0 + t.subrange(0, 6) + hex_marker());
                }
                push_hex4(&mut out, v);
                proof {
                    let emitted = t.subrange(0, 6) + hex_marker() + spec_hex4(v as nat);
                    assert(out@ =~= out0 + emitted);
                    assert(t.subrange(6 + ws, 6 + ws + ds) =~= s.subrange(j as int, k as int));
                    assert(v as nat == parsed_id(s.subrange(j as int, k as int)));
                    assert(t.skip(6 + ws + ds) =~= s.skip(k as int));
                    assert(rewrite_usb_ids(t) == emitted + rewrite_usb_ids(s.skip(k as int)));
                    assert(out0 + (emitted + rewrite_usb_ids(s.skip(k as int))) =~= (out0 + emitted)
                        + rewrite_usb_ids(s.skip(k as int)));
                }
                i = k;
            } else {
                proof {
                    assert(!usb_match_at(t));
                    assert(t[0] == s[i as int]);
                    assert(t.skip(1) =~= s.skip(i as int + 1));
                }
                out.push(content[i]);
                proof {
                    assert(out@ =~= out0 + seq![s[i as int]]);
                    assert(out0 + (seq![s[i as int]] + rewrite_usb_ids(s.skip(i as int + 1)))
                        =~= (out0 + seq![s[i as int]]) + rewrite_usb_ids(s.skip(i as int + 1)));
                }
                i = i + 1;
            }
        } else {
            proof {
                assert(!usb_match_at(t)) by {
                    if t.len() >= 6 {
                        assert forall|m: int| 0 <= m < 6 implies t.subrange(0, 6)[m] == s[
                            i as int + m
                        ] by {}
                        if t.subrange(0, 6) == vid_key() {
                            assert(s[i as int] == 34 && s[i as int + 1] == 118 && s[i as int + 2]
                                == 105 && s[i as int + 3] == 100 && s[i as int + 4] == 34 && s[
                                i as int + 5
                            ] == 58);
                            assert(false);
                        }
                        if t.subrange(0, 6) == pid_key() {
                            assert(s[i as int] == 34 && s[i as int + 1] == 112 && s[i as int + 2]
                                == 105 && s[i as int + 3] == 100 && s[i as int + 4] == 34 && s[
                                i as int + 5
                            ] == 58);
                            assert(false);
                        }
                    }
                }
                assert(t[0] == s[i as int]);
                assert(t.skip(1) =~= s.skip(i as int + 1));
            }
            out.push(content[i]);
            proof {
                assert(out@ =~= out0 + seq![s[i as int]]);
                assert(out0 + (seq![s[i as int]] + rewrite_usb_ids(s.skip(i as int + 1))) =~= (out0
                    + seq![s[i as int]]) + rewrite_usb_ids(s.skip(i as int + 1)));
            }
            i = i + 1;
        }
    }
    proof {
        assert(s.skip(s.len() as int) =~= Seq::<u8>::empty());
        assert(out@ + rewrite_usb_ids(Seq::<u8>::empty()) =~= out@);
    }
    out
}

} // verus!

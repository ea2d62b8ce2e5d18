//! Plain-text pixel output: the `P3` header, decimal rendering of bytes,
//! a sample gradient image, and the textual form of a finished
//! framebuffer.

use vstd::prelude::*;

use crate::chunk::{byte_spec, to_byte, MAX_DIM};
use crate::render::{frac, frac_spec};
use crate::fixed::HALF;

verus! {

/// The decimal digit characters.
pub open spec fn dec_digit(d: int) -> Seq<char> {
    if d == 0 {
        ("0")@
    } else if d == 1 {
        ("1")@
    } else if d == 2 {
        ("2")@
    } else if d == 3 {
        ("3")@
    } else if d == 4 {
        ("4")@
    } else if d == 5 {
        ("5")@
    } else if d == 6 {
        ("6")@
    } else if d == 7 {
        ("7")@
    } else if d == 8 {
        ("8")@
    } else {
        ("9")@
    }
}

/// The decimal numeral of a nonnegative number, most significant digit
/// first.
pub open spec fn dec_spec(n: int) -> Seq<char>
    decreases n,
{
    if n < 10 {
        dec_digit(n)
    } else {
        dec_spec(n / 10) + dec_digit(n % 10)
    }
}

fn digit_str(d: u32) -> (s: &'static str)
    requires
        d < 10,
    ensures
        s@ == dec_digit(d as int),
{
    match d {
        0 => "0",
        1 => "1",
        2 => "2",
        3 => "3",
        4 => "4",
        5 => "5",
        6 => "6",
        7 => "7",
        8 => "8",
        _ => "9",
    }
}

/// Appends the decimal numeral of `n`.
fn push_decimal(s: &mut String, n: u32)
    ensures
        final(s)@ == old(s)@ + dec_spec(n as int),
    decreases n,
{
    if n < 10 {
        s.append(digit_str(n));
    } else {
        let ghost s0 = s@;
        push_decimal(s, n / 10);
        s.append(digit_str(n % 10));
        proof {
            assert(s@ =~= s0 + dec_spec(n as int));
        }
    }
}

/// One `P3` text line: three decimal bytes and a line break.
pub open spec fn ppm_triple(r: int, g: int, b: int) -> Seq<char> {
    dec_spec(r) + (" ")@ + dec_spec(g) + (" ")@ + dec_spec(b) + ("\n")@
}

/// The `P3` header: magic, extents and the maximum channel value.
pub open spec fn ppm_header(w: int, h: int) -> Seq<char> {
    ("P3\n")@ + dec_spec(w) + (" ")@ + dec_spec(h) + ("\n255\n")@
}

fn push_header(s: &mut String, w: u32, h: u32)
    ensures
        final(s)@ == old(s)@ + ppm_header(w as int, h as int),
{
    let ghost s0 = s@;
    s.append("P3\n");
    push_decimal(s, w);
    s.append(" ");
    push_decimal(s, h);
    s.append("\n255\n");
    proof {
        assert(s@ =~= s0 + ppm_header(w as int, h as int));
    }
}

/// The colour channels of the sample image at column `i` of a row `j`
/// (rows are emitted top first): red grows with the column, green with
/// the row, blue stays at one half.
pub open spec fn sample_triple(i: int, j: int, w: int, h: int) -> Seq<char> {
    ppm_triple(
        byte_spec(frac_spec(i, w)),
        byte_spec(frac_spec(j, h)),
        byte_spec(HALF as int),
    )
}

/// The first `i` triples of the sample row `j`.
pub open spec fn sample_row_to(j: int, i: int, w: int, h: int) -> Seq<char>
    decreases i,
{
    if i <= 0 {
        Seq::empty()
    } else {
        sample_row_to(j, i - 1, w, h) + sample_triple(i - 1, j, w, h)
    }
}

/// The first `k` rows of the sample image, top row (`j == h - 1`) first.
pub open spec fn sample_rows_to(k: int, w: int, h: int) -> Seq<char>
    decreases k,
{
    if k <= 0 {
        Seq::empty()
    } else {
        sample_rows_to(k - 1, w, h) + sample_row_to(h - k, w, w, h)
    }
}

/// The whole sample image as `P3` text.
pub open spec fn create_sample_spec(h: int, w: int) -> Seq<char> {
    ppm_header(w, h) + sample_rows_to(h, w, h)
}

fn push_byte_decimal(s: &mut String, b: u8)
    ensures
        final(s)@ == old(s)@ + dec_spec(b as int),
{
    push_decimal(s, b as u32);
}

/// A sample gradient image in `P3` text form: red rises with the column,
/// green with the row, blue stays at one half; rows are written from the
/// top of the image down.
pub fn create_sample(h: u32, w: u32) -> (s: String)
    requires
        1 <= h <= MAX_DIM,
        1 <= w <= MAX_DIM,
    ensures
        s@ == create_sample_spec(h as int, w as int),
{
    let mut s = String::new();
    push_header(&mut s, w, h);
    let mut k: u32 = 0;
    while k < h
        invariant
            k <= h,
            1 <= h <= MAX_DIM,
            1 <= w <= MAX_DIM,
            s@ == ppm_header(w as int, h as int) + sample_rows_to(k as int, w as int, h as int),
        decreases h - k,
    {
        let j = h - 1 - k;
        let ghost row_base = s@;
        let mut i: u32 = 0;
        while i < w
            invariant
                i <= w,
                k < h,
                j == h - 1 - k,
                1 <= h <= MAX_DIM,
                1 <= w <= MAX_DIM,
                s@ == row_base + sample_row_to(j as int, i as int, w as int, h as int),
                row_base == ppm_header(w as int, h as int) + sample_rows_to(
                    k as int,
                    w as int,
                    h as int,
                ),
            decreases w - i,
        {
            let ghost s0 = s@;
            let ir = to_byte(frac(i as usize, w as usize));
            let ig = to_byte(frac(j as usize, h as usize));
            let ib = to_byte(HALF);
            push_byte_decimal(&mut s, ir);
            s.append(" ");
            push_byte_decimal(&mut s, ig);
            s.append(" ");
            push_byte_decimal(&mut s, ib);
            s.append("\n");
            proof {
                assert(s@ =~= s0 + sample_triple(i as int, j as int, w as int, h as int));
                assert(s@ =~= row_base + sample_row_to(
                    j as int,
                    i as int + 1,
                    w as int,
                    h as int,
                ));
            }
            i = i + 1;
        }
        proof {
            assert(s@ =~= ppm_header(w as int, h as int) + sample_rows_to(
                k as int + 1,
                w as int,
                h as int,
            ));
        }
        k = k + 1;
    }
    proof {
        assert(s@ =~= create_sample_spec(h as int, w as int));
    }
    s
}

/// The first `k` pixels of a framebuffer as `P3` text lines: each
/// four-byte pixel contributes its first three bytes.
pub open spec fn ppm_body_to(buf: Seq<u8>, k: int) -> Seq<char>
    decreases k,
{
    if k <= 0 {
        Seq::empty()
    } else {
        ppm_body_to(buf, k - 1) + ppm_triple(
            buf[4 * (k - 1)] as int,
            buf[4 * (k - 1) + 1] as int,
            buf[4 * (k - 1) + 2] as int,
        )
    }
}

/// A finished framebuffer as `P3` text.
pub open spec fn ppm_of_buffer_spec(buf: Seq<u8>, w: int, h: int) -> Seq<char> {
    ppm_header(w, h) + ppm_body_to(buf, buf.len() as int / 4)
}

/// Renders a framebuffer to `P3` text: the header, then one line of
/// three decimal bytes per four-byte pixel, in buffer order.
pub fn ppm_of_buffer(buf: &Vec<u8>, w: u32, h: u32) -> (s: String)
    requires
        buf.len() % 4 == 0,
    ensures
        s@ == ppm_of_buffer_spec(buf@, w as int, h as int),
{
    let mut s = String::new();
    push_header(&mut s, w, h);
    let n = buf.len() / 4;
    proof {
        vstd::arithmetic::div_mod::lemma_fundamental_div_mod(buf.len() as int, 4);
    }
    let mut k: usize = 0;
    while k < n
        invariant
            k <= n,
            n == buf.len() / 4,
            buf.len() as int == 4 * (n as int),
            s@ == ppm_header(w as int, h as int) + ppm_body_to(buf@, k as int),
        decreases n - k,
    {
        let ghost s0 = s@;
        proof {
            assert(4 * (k as int) + 2 < buf.len() as int) by (nonlinear_arith)
                requires
                    k < n,
                    buf.len() as int == 4 * (n as int),
            ;
        }
        push_byte_decimal(&mut s, buf[4 * k]);
        s.append(" ");
        push_byte_decimal(&mut s, buf[4 * k + 1]);
        s.append(" ");
        push_byte_decimal(&mut s, buf[4 * k + 2]);
        s.append("\n");
        proof {
            assert(s@ =~= ppm_header(w as int, h as int) + ppm_body_to(buf@, k as int + 1));
        }
        k = k + 1;
    }
    s
}

} // verus!

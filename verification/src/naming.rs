//! Names of the image files: one per frame, numbered from zero.

use vstd::prelude::*;
use vstd::string::StringExecFns;

verus! {

/// The character of a decimal digit.
pub open spec fn digit_char(d: int) -> char {
    if d == 0 {
        '0'
    } else if d == 1 {
        '1'
    } else if d == 2 {
        '2'
    } else if d == 3 {
        '3'
    } else if d == 4 {
        '4'
    } else if d == 5 {
        '5'
    } else if d == 6 {
        '6'
    } else if d == 7 {
        '7'
    } else if d == 8 {
        '8'
    } else {
        '9'
    }
}

/// The decimal digits of `n`, with zeros in front up to `width` digits. A
/// number with more digits than `width` keeps them all.
pub open spec fn zero_padded(n: nat, width: nat) -> Seq<char>
    decreases n, width,
{
    if n < 10 && width <= 1 {
        seq![digit_char(n as int)]
    } else {
        zero_padded(
            n / 10,
            if width > 0 {
                (width - 1) as nat
            } else {
                0
            },
        ).push(digit_char((n % 10) as int))
    }
}

/// The file name of frame `index`: `decoded_`, the index in at least four
/// decimal digits, `.fits`.
pub open spec fn spec_frame_file_name(index: nat) -> Seq<char> {
    "decoded_"@ + zero_padded(index, 4) + ".fits"@
}

/// The path of the image of frame `index` under the directory `dir`.
pub open spec fn spec_output_path(dir: Seq<char>, index: nat) -> Seq<char> {
    dir + "/"@ + spec_frame_file_name(index)
}

/// A padded number has at least one digit, and at least `width` of them.
pub proof fn lemma_zero_padded_len(n: nat, width: nat)
    ensures
        zero_padded(n, width).len() >= 1,
        zero_padded(n, width).len() >= width,
        n < 10 && width <= 1 ==> zero_padded(n, width).len() == 1,
    decreases n, width,
{
    if n < 10 && width <= 1 {
    } else {
        lemma_zero_padded_len(
            n / 10,
            if width > 0 {
                (width - 1) as nat
            } else {
                0
            },
        );
    }
}

/// Different numbers are written differently: equal padded forms of the
/// same width come from equal numbers.
pub proof fn lemma_zero_padded_injective(a: nat, b: nat, width: nat)
    requires
        zero_padded(a, width) == zero_padded(b, width),
    ensures
        a == b,
    decreases a, width,
{
    let rest: nat = if width > 0 {
        (width - 1) as nat
    } else {
        0
    };
    let a_base = a < 10 && width <= 1;
    let b_base = b < 10 && width <= 1;
    lemma_zero_padded_len(a, width);
    lemma_zero_padded_len(b, width);
    lemma_zero_padded_len(a / 10, rest);
    lemma_zero_padded_len(b / 10, rest);
    if a_base && b_base {
        assert(zero_padded(a, width)[0] == digit_char(a as int));
        assert(zero_padded(b, width)[0] == digit_char(b as int));
    } else if !a_base && !b_base {
        let pa = zero_padded(a / 10, rest);
        let pb = zero_padded(b / 10, rest);
        let ca = digit_char((a % 10) as int);
        let cb = digit_char((b % 10) as int);
        assert(pa.push(ca) == pb.push(cb));
        assert(pa.push(ca).len() == pa.len() + 1);
        assert(pb.push(cb).len() == pb.len() + 1);
        assert(pa.push(ca)[pa.len() as int] == ca);
        assert(pb.push(cb)[pb.len() as int] == cb);
        assert(ca == cb);
        assert(pa =~= pa.push(ca).drop_last());
        assert(pb =~= pb.push(cb).drop_last());
        lemma_zero_padded_injective(a / 10, b / 10, rest);
    } else {
        assert(false);
    }
}

/// Different frames get different file names.
pub proof fn lemma_frame_file_names_distinct(i: nat, j: nat)
    requires
        spec_frame_file_name(i) == spec_frame_file_name(j),
    ensures
        i == j,
{
    let head = "decoded_"@;
    let tail = ".fits"@;
    let a = zero_padded(i, 4);
    let b = zero_padded(j, 4);
    assert(a =~= (head + a + tail).subrange(head.len() as int, (head + a + tail).len() - tail.len()));
    assert(b =~= (head + b + tail).subrange(head.len() as int, (head + b + tail).len() - tail.len()));
    assert((head + a + tail).len() == head.len() + a.len() + tail.len());
    assert((head + b + tail).len() == head.len() + b.len() + tail.len());
    lemma_zero_padded_injective(i, j, 4);
}

/// Different frames go to different paths under one directory.
pub proof fn lemma_output_paths_distinct(dir: Seq<char>, i: nat, j: nat)
    requires
        spec_output_path(dir, i) == spec_output_path(dir, j),
    ensures
        i == j,
{
    let head = dir + "/"@;
    let a = spec_frame_file_name(i);
    let b = spec_frame_file_name(j);
    assert(a =~= (head + a).subrange(head.len() as int, (head + a).len() as int));
    assert(b =~= (head + b).subrange(head.len() as int, (head + b).len() as int));
    lemma_frame_file_names_distinct(i, j);
}

/// The text of one decimal digit.
fn digit_str(d: u32) -> (s: &'static str)
    requires
        d < 10,
    ensures
        s@ == seq![digit_char(d as int)],
{
    proof {
        reveal_strlit("0");
        reveal_strlit("1");
        reveal_strlit("2");
        reveal_strlit("3");
        reveal_strlit("4");
        reveal_strlit("5");
        reveal_strlit("6");
        reveal_strlit("7");
        reveal_strlit("8");
        reveal_strlit("9");
    }
    let s: &'static str = if d == 0 {
        "0"
    } else if d == 1 {
        "1"
    } else if d == 2 {
        "2"
    } else if d == 3 {
        "3"
    } else if d == 4 {
        "4"
    } else if d == 5 {
        "5"
    } else if d == 6 {
        "6"
    } else if d == 7 {
        "7"
    } else if d == 8 {
        "8"
    } else {
        "9"
    };
    assert(s@ =~= seq![digit_char(d as int)]);
    s
}

/// Appends `n` in decimal, with zeros in front up to `width` digits.
pub fn push_zero_padded(out: &mut String, n: u32, width: u32)
    ensures
        final(out)@ == old(out)@ + zero_padded(n as nat, width as nat),
    decreases n, width,
{
    if n < 10 && width <= 1 {
        out.append(digit_str(n));
    } else {
        let rest: u32 = if width > 0 {
            width - 1
        } else {
            0
        };
        push_zero_padded(out, n / 10, rest);
        out.append(digit_str(n % 10));
        assert(out@ =~= old(out)@ + zero_padded(n as nat, width as nat));
    }
}

/// The file name of frame `index`: `decoded_0000.fits` for frame 0,
/// `decoded_0001.fits` for frame 1, and so on.
pub fn frame_file_name(index: u32) -> (name: String)
    ensures
        name@ == spec_frame_file_name(index as nat),
{
    let mut name: String = String::from_str("decoded_");
    push_zero_padded(&mut name, index, 4);
    name.append(".fits");
    name
}

/// The path of the image of frame `index` under the directory `dir`.
pub fn output_path(dir: &str, index: u32) -> (path: String)
    ensures
        path@ == spec_output_path(dir@, index as nat),
{
    let mut path: String = String::from_str(dir);
    path.append("/");
    let name: String = frame_file_name(index);
    path.append(name.as_str());
    assert(path@ =~= spec_output_path(dir@, index as nat));
    path
}

} // verus!

//! Text helpers: white space, line splitting, decimal numbers and padding,
//! as `str::trim`, `str::lines` and the `{:>width}` format treat them.
use vstd::prelude::*;

verus! {

/// Whether `c` has the Unicode `White_Space` property, as
/// `char::is_whitespace` reads it.
pub open spec fn is_white_space(c: char) -> bool {
    let u = c as u32;
    ||| 0x9 <= u <= 0xd
    ||| u == 0x20
    ||| u == 0x85
    ||| u == 0xa0
    ||| u == 0x1680
    ||| 0x2000 <= u <= 0x200a
    ||| u == 0x2028
    ||| u == 0x2029
    ||| u == 0x202f
    ||| u == 0x205f
    ||| u == 0x3000
}

/// Whether a text is empty once white space is trimmed from both ends.
pub open spec fn is_blank_text(s: Seq<char>) -> bool {
    forall|i: int| 0 <= i < s.len() ==> is_white_space(#[trigger] s[i])
}

/// A line without the carriage return that ends it, if one does.
pub open spec fn strip_cr(line: Seq<char>) -> Seq<char> {
    if line.len() > 0 && line.last() == '\r' {
        line.drop_last()
    } else {
        line
    }
}

/// The lines completed so far and the line being read, after reading `s`.
pub open spec fn scan_lines(s: Seq<char>) -> (Seq<Seq<char>>, Seq<char>)
    decreases s.len(),
{
    if s.len() == 0 {
        (Seq::empty(), Seq::empty())
    } else {
        let (done, current) = scan_lines(s.drop_last());
        if s.last() == '\n' {
            (done.push(strip_cr(current)), Seq::empty())
        } else {
            (done, current.push(s.last()))
        }
    }
}

/// The lines of a text: split at `\n`, each without a `\r` that ends it
/// before the `\n`; a final line ending adds no empty line.
pub open spec fn lines_of(s: Seq<char>) -> Seq<Seq<char>> {
    let (done, current) = scan_lines(s);
    if current.len() > 0 {
        done.push(current)
    } else {
        done
    }
}

/// The decimal digit for `d < 10`.
pub open spec fn digit(d: nat) -> char {
    ((d + 48) as u8) as char
}

/// The decimal text of `n`, without leading zeros.
pub open spec fn decimal_text(n: nat) -> Seq<char>
    decreases n,
{
    if n < 10 {
        seq![digit(n)]
    } else {
        decimal_text(n / 10).push(digit(n % 10))
    }
}

/// `s` right-aligned in a field of `width` characters, filled with spaces.
pub open spec fn padded_left(s: Seq<char>, width: nat) -> Seq<char> {
    if s.len() < width {
        Seq::new((width - s.len()) as nat, |_i: int| ' ') + s
    } else {
        s
    }
}

/// `String::push`: appends the character.
#[verifier::external_body]
pub(crate) fn string_push(s: &mut String, c: char)
    ensures
        final(s)@ == old(s)@.push(c),
{
    s.push(c);
}

/// Whether `c` has the Unicode `White_Space` property.
pub fn char_is_white_space(c: char) -> (r: bool)
    ensures
        r == is_white_space(c),
{
    let u = c as u32;
    (0x9 <= u && u <= 0xd) || u == 0x20 || u == 0x85 || u == 0xa0 || u == 0x1680 || (0x2000 <= u
        && u <= 0x200a) || u == 0x2028 || u == 0x2029 || u == 0x202f || u == 0x205f || u == 0x3000
}

/// Whether the text holds nothing but white space.
pub fn is_blank(s: &str) -> (r: bool)
    ensures
        r == is_blank_text(s@),
{
    let mut blank = true;
    for c in it: s.chars()
        invariant
            it.seq() == s@,
            blank == is_blank_text(s@.take(it.index() as int)),
    {
        proof {
            let before = s@.take(it.index() as int);
            let after = s@.take(it.index() + 1);
            assert(after =~= before.push(c));
            assert(is_blank_text(after) == (is_blank_text(before) && is_white_space(c))) by {
                if is_blank_text(before) && is_white_space(c) {
                    assert forall|i: int| 0 <= i < after.len() implies is_white_space(
                        #[trigger] after[i],
                    ) by {
                        if i < before.len() {
                            assert(after[i] == before[i]);
                        }
                    }
                }
                if is_blank_text(after) {
                    assert(is_white_space(after[before.len() as int]));
                    assert forall|i: int| 0 <= i < before.len() implies is_white_space(
                        #[trigger] before[i],
                    ) by {
                        assert(after[i] == before[i]);
                    }
                }
            }
        }
        if !char_is_white_space(c) {
            blank = false;
        }
    }
    proof {
        assert(s@.take(s@.len() as int) =~= s@);
    }
    blank
}

/// The lines of a text, as `str::lines` gives them.
pub fn split_lines(s: &str) -> (r: Vec<String>)
    ensures
        r@.len() == lines_of(s@).len(),
        forall|i: int| 0 <= i < r@.len() ==> #[trigger] r@[i]@ == lines_of(s@)[i],
{
    let mut lines: Vec<String> = Vec::new();
    let mut current = String::new();
    let mut pending_cr = false;
    for c in it: s.chars()
        invariant
            it.seq() == s@,
            ({
                let (done, cur) = scan_lines(s@.take(it.index() as int));
                &&& lines@.len() == done.len()
                &&& forall|i: int| 0 <= i < lines@.len() ==> #[trigger] lines@[i]@ == done[i]
                &&& cur == if pending_cr {
                    current@.push('\r')
                } else {
                    current@
                }
            }),
            !pending_cr ==> current@.len() == 0 || current@.last() != '\r',
    {
        let ghost before = s@.take(it.index() as int);
        proof {
            assert(s@.take(it.index() + 1).drop_last() =~= before);
        }
        let ghost done0 = scan_lines(before).0;
        if c == '\n' {
            let line = current;
            current = String::new();
            pending_cr = false;
            proof {
                assert(strip_cr(scan_lines(before).1) == line@);
            }
            lines.push(line);
            proof {
                let (done, cur) = scan_lines(s@.take(it.index() + 1));
                assert(done == done0.push(line@));
                assert forall|i: int| 0 <= i < lines@.len() implies #[trigger] lines@[i]@
                    == done[i] by {
                    if i < done0.len() {
                    }
                }
            }
        } else if c == '\r' {
            if pending_cr {
                string_push(&mut current, '\r');
            }
            pending_cr = true;
        } else {
            if pending_cr {
                string_push(&mut current, '\r');
                pending_cr = false;
            }
            string_push(&mut current, c);
        }
    }
    if pending_cr {
        string_push(&mut current, '\r');
    }
    proof {
        assert(s@.take(s@.len() as int) =~= s@);
    }
    if !current.as_str().is_empty() {
        lines.push(current);
    }
    lines
}

/// Appends the decimal text of `n`.
fn push_decimal(out: &mut String, n: usize)
    ensures
        final(out)@ == old(out)@ + decimal_text(n as nat),
    decreases n,
{
    if n >= 10 {
        push_decimal(out, n / 10);
    }
    let d = (n % 10) as u8;
    string_push(out, (d + 48u8) as char);
    proof {
        assert(old(out)@ + decimal_text(n as nat) =~= final(out)@);
    }
}

/// The decimal text of `n`.
pub fn decimal(n: usize) -> (r: String)
    ensures
        r@ == decimal_text(n as nat),
{
    let mut out = String::new();
    push_decimal(&mut out, n);
    proof {
        assert(out@ =~= decimal_text(n as nat));
    }
    out
}

/// `s` right-aligned in a field of `width` characters.
pub fn pad_left(s: &str, width: usize) -> (r: String)
    ensures
        r@ == padded_left(s@, width as nat),
{
    let len = s.unicode_len();
    let mut out = String::new();
    let mut i: usize = len;
    while i < width
        invariant
            len == s@.len(),
            len <= i <= width || (width < len && i == len),
            out@ == Seq::new((i - len) as nat, |_j: int| ' '),
        decreases width - i,
    {
        string_push(&mut out, ' ');
        i = i + 1;
        proof {
            assert(out@ =~= Seq::new((i - len) as nat, |_j: int| ' '));
        }
    }
    out.append(s);
    proof {
        if len < width {
            assert(out@ =~= padded_left(s@, width as nat));
        } else {
            assert(out@ =~= s@);
        }
    }
    out
}

} // verus!

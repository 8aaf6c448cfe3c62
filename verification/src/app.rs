//! The decisions and text work behind the application's buttons: the file
//! viewer's lines, the hex dump, the checks on the selected file.
use vstd::prelude::*;
use crate::button_bar::default_cell;
use crate::paths::{extension_of, path_extension};
use crate::text::{law_decimal_parses_back, begins_with, has_prefix, parse_usize_from, parsed_usize, string_from_chars, chars_of, decimal, lowercase, push_char, push_decimal, push_str, to_lowercase, trim, trimmed};

verus! {

/// Most lines the file viewer shows.
pub const MAX_VIEW_LINES: usize = 20000;

/// The lines of `rest`, given the lines `done` already ended and the text
/// `cur` of the line in progress: a line ends at `\n`, which is dropped with a
/// `\r` just before it; a last line without `\n` counts only if it is not empty.
pub open spec fn lines_from(rest: Seq<char>, done: Seq<Seq<char>>, cur: Seq<char>) -> Seq<Seq<char>>
    decreases rest.len(),
{
    if rest.len() == 0 {
        if cur.len() == 0 {
            done
        } else {
            done.push(cur)
        }
    } else if rest[0] == '\n' {
        let line = if cur.len() > 0 && cur.last() == '\r' { cur.drop_last() } else { cur };
        lines_from(rest.drop_first(), done.push(line), Seq::empty())
    } else {
        lines_from(rest.drop_first(), done, cur.push(rest[0]))
    }
}

/// The lines of a text, as `str::lines` splits them.
pub open spec fn text_lines(text: Seq<char>) -> Seq<Seq<char>> {
    lines_from(text, Seq::empty(), Seq::empty())
}

proof fn lemma_line_ending_optional(rest: Seq<char>, done: Seq<Seq<char>>, cur: Seq<char>)
    requires
        (rest.len() > 0 && rest.last() != '\n' && rest.last() != '\r') || (rest.len() == 0 && cur.len() > 0
            && cur.last() != '\r'),
    ensures
        lines_from(rest + seq!['\n'], done, cur) == lines_from(rest, done, cur),
        lines_from(rest + seq!['\r', '\n'], done, cur) == lines_from(rest, done, cur),
    decreases rest.len(),
{
    if rest.len() == 0 {
        assert(rest + seq!['\n'] =~= seq!['\n']);
        assert(rest + seq!['\r', '\n'] =~= seq!['\r', '\n']);
        assert((rest + seq!['\n']).drop_first() =~= Seq::<char>::empty());
        assert((rest + seq!['\r', '\n']).drop_first() =~= seq!['\n']);
        assert(seq!['\n'].drop_first() =~= Seq::<char>::empty());
        assert(cur.push('\r').drop_last() =~= cur);
        let e = Seq::<char>::empty();
        assert(lines_from(e, done.push(cur), e) == done.push(cur));
        assert(lines_from(seq!['\n'], done, cur) == lines_from(e, done.push(cur), e));
        assert(seq!['\r', '\n'].drop_first() =~= seq!['\n']);
        assert(lines_from(seq!['\n'], done, cur.push('\r')) == lines_from(e, done.push(cur), e));
        assert(lines_from(seq!['\r', '\n'], done, cur) == lines_from(seq!['\n'], done, cur.push('\r')));
        assert(lines_from(rest, done, cur) == done.push(cur));
    } else {
        assert((rest + seq!['\n']).drop_first() =~= rest.drop_first() + seq!['\n']);
        assert((rest + seq!['\r', '\n']).drop_first() =~= rest.drop_first() + seq!['\r', '\n']);
        assert((rest + seq!['\n'])[0] == rest[0]);
        assert((rest + seq!['\r', '\n'])[0] == rest[0]);
        if rest[0] == '\n' {
            lemma_line_ending_optional(rest.drop_first(), done.push(
                if cur.len() > 0 && cur.last() == '\r' { cur.drop_last() } else { cur },
            ), Seq::empty());
        } else {
            lemma_line_ending_optional(rest.drop_first(), done, cur.push(rest[0]));
        }
    }
}

/// A text that ends with a line ending (`\n` or `\r\n`) has the same lines as
/// the text without it (the final line ending is optional).
pub proof fn law_final_line_ending_optional(text: Seq<char>)
    requires
        text.len() > 0,
        text.last() != '\n',
        text.last() != '\r',
    ensures
        text_lines(text + seq!['\n']) == text_lines(text),
        text_lines(text + seq!['\r', '\n']) == text_lines(text),
{
    lemma_line_ending_optional(text, Seq::empty(), Seq::empty());
}

/// `lines` put back together, a newline between each two.
pub open spec fn lines_joined(lines: Seq<Seq<char>>) -> Seq<char>
    decreases lines.len(),
{
    if lines.len() == 0 {
        Seq::empty()
    } else if lines.len() == 1 {
        lines[0]
    } else {
        lines[0] + seq!['\n'] + lines_joined(lines.drop_first())
    }
}

/// The newline that ends `s`, if it ends with one.
pub open spec fn final_newline(s: Seq<char>) -> Seq<char> {
    if s.len() > 0 && s.last() == '\n' {
        seq!['\n']
    } else {
        Seq::empty()
    }
}

/// Whether `s` holds the character `c`.
pub open spec fn holds_char(s: Seq<char>, c: char) -> bool {
    exists|k: int| 0 <= k < s.len() && s[k] == c
}

proof fn lemma_lines_rebuild(rest: Seq<char>, done: Seq<Seq<char>>, cur: Seq<char>)
    requires
        !holds_char(rest, '\r'),
        !holds_char(cur, '\r'),
        !holds_char(cur, '\n'),
    ensures
        ({
            let out = lines_from(rest, done, cur);
            let tail = out.skip(done.len() as int);
            &&& out.len() >= done.len()
            &&& out.take(done.len() as int) == done
            &&& (tail.len() == 0 <==> (cur + rest).len() == 0)
            &&& lines_joined(tail) + final_newline(cur + rest) == cur + rest
            &&& forall|k: int| 0 <= k < tail.len() ==> !holds_char(#[trigger] tail[k], '\n')
        }),
    decreases rest.len(),
{
    let out = lines_from(rest, done, cur);
    if rest.len() == 0 {
        assert(cur + rest =~= cur);
        if cur.len() == 0 {
            assert(out.skip(done.len() as int) =~= Seq::<Seq<char>>::empty());
        } else {
            assert(out.skip(done.len() as int) =~= seq![cur]);
            assert(out.take(done.len() as int) =~= done);
            if cur.last() == '\n' {
                assert(holds_char(cur, '\n'));
            }
        }
    } else {
        let c = rest[0];
        let more = rest.drop_first();
        if c == '\r' {
            assert(holds_char(rest, '\r'));
        }
        if c == '\n' {
            if cur.len() > 0 && cur.last() == '\r' {
                assert(holds_char(cur, '\r'));
            }
            let done2 = done.push(cur);
            let e = Seq::<char>::empty();
            assert forall|k: int| 0 <= k < more.len() && more[k] == '\r' implies false by {
                assert(rest[k + 1] == '\r');
            }
            assert(!holds_char(e, '\r') && !holds_char(e, '\n'));
            lemma_lines_rebuild(more, done2, e);
            assert(out == lines_from(more, done2, e));
            assert(out.take(done2.len() as int)[done.len() as int] == done2[done.len() as int]);
            assert(out[done.len() as int] == cur);
            let tail2 = out.skip(done2.len() as int);
            let tail = out.skip(done.len() as int);
            assert(out.take(done.len() as int) =~= done2.take(done.len() as int));
            assert(done2.take(done.len() as int) =~= done);
            assert(tail =~= seq![cur] + tail2);
            assert(tail.drop_first() =~= tail2);
            assert(e + more =~= more);
            assert(cur + rest =~= cur + seq!['\n'] + more);
            if more.len() == 0 {
                assert(tail =~= seq![cur]);
                assert(final_newline(cur + rest) =~= seq!['\n']);
                assert(final_newline(more) =~= Seq::<char>::empty());
            } else {
                assert((cur + rest).last() == more.last());
                assert(final_newline(cur + rest) == final_newline(more));
                assert(lines_joined(tail) == tail[0] + seq!['\n'] + lines_joined(tail.drop_first()));
            }
            assert forall|k: int| 0 <= k < tail.len() implies !holds_char(#[trigger] tail[k], '\n') by {
                if k > 0 {
                    assert(tail[k] == tail2[k - 1]);
                }
            }
        } else {
            let cur2 = cur.push(c);
            assert forall|k: int| 0 <= k < more.len() && more[k] == '\r' implies false by {
                assert(rest[k + 1] == '\r');
            }
            assert forall|k: int| 0 <= k < cur2.len() && (cur2[k] == '\r' || cur2[k] == '\n') implies false by {
                if k < cur.len() {
                    assert(cur2[k] == cur[k]);
                    if cur[k] == '\r' {
                        assert(holds_char(cur, '\r'));
                    } else {
                        assert(holds_char(cur, '\n'));
                    }
                }
            }
            lemma_lines_rebuild(more, done, cur2);
            assert(cur2 + more =~= cur + rest);
        }
    }
}

/// Lines put back together with a newline between each two, and the final
/// newline if the text had one, give the text back (for a text without
/// carriage returns); no line holds a newline, and only an empty text has no
/// line.
pub proof fn law_lines_rebuild_the_text(text: Seq<char>)
    requires
        !holds_char(text, '\r'),
    ensures
        lines_joined(text_lines(text)) + final_newline(text) == text,
        forall|k: int| 0 <= k < text_lines(text).len() ==> !holds_char(#[trigger] text_lines(text)[k], '\n'),
        text_lines(text).len() == 0 <==> text.len() == 0,
{
    let e = Seq::<char>::empty();
    lemma_lines_rebuild(text, Seq::empty(), e);
    assert(text_lines(text).skip(0) =~= text_lines(text));
    assert(e + text =~= text);
}

/// The lines of `content` (`str::lines`).
pub fn split_lines(content: &str) -> (lines: Vec<String>)
    ensures
        lines@.len() == text_lines(content@).len(),
        forall|k: int| 0 <= k < lines@.len() ==> #[trigger] lines@[k]@ == text_lines(content@)[k],
{
    let chars = chars_of(content);
    let mut lines: Vec<String> = Vec::new();
    let mut cur = String::new();
    let mut pending_cr = false;
    let ghost mut done: Seq<Seq<char>> = Seq::empty();
    let n = chars.len();
    assert(chars@.skip(0) =~= chars@);
    for i in 0..n
        invariant
            n == chars@.len(),
            chars@ == content@,
            lines@.len() == done.len(),
            forall|k: int| 0 <= k < lines@.len() ==> #[trigger] lines@[k]@ == done[k],
            !pending_cr && cur@.len() > 0 ==> cur@.last() != '\r',
            lines_from(chars@.skip(i as int), done, if pending_cr { cur@.push('\r') } else { cur@ })
                == text_lines(content@),
    {
        let c = chars[i];
        let ghost full = if pending_cr { cur@.push('\r') } else { cur@ };
        assert(chars@.skip(i as int).drop_first() =~= chars@.skip(i + 1));
        assert(chars@.skip(i as int)[0] == c);
        if c == '\n' {
            proof {
                if pending_cr {
                    assert(full.drop_last() =~= cur@);
                }
                done = done.push(cur@);
            }
            lines.push(cur);
            cur = String::new();
            pending_cr = false;
            assert(lines@[lines@.len() - 1]@ == done.last());
        } else {
            if pending_cr {
                push_char(&mut cur, '\r');
            }
            if c == '\r' {
                pending_cr = true;
            } else {
                push_char(&mut cur, c);
                pending_cr = false;
            }
        }
    }
    assert(chars@.skip(n as int) =~= Seq::<char>::empty());
    if pending_cr {
        push_char(&mut cur, '\r');
        pending_cr = false;
    }
    if !cur.as_str().is_empty() {
        proof {
            done = done.push(cur@);
        }
        lines.push(cur);
    }
    lines
}


/// The lines the file viewer shows for `content`: at most `MAX_VIEW_LINES`,
/// and whether some were left out.
pub fn lines_from_content(content: &str) -> (r: (Vec<String>, bool))
    ensures
        r.0@.len() == if text_lines(content@).len() > MAX_VIEW_LINES {
            MAX_VIEW_LINES as nat
        } else {
            text_lines(content@).len()
        },
        forall|k: int| 0 <= k < r.0@.len() ==> #[trigger] r.0@[k]@ == text_lines(content@)[k],
        r.1 == (text_lines(content@).len() > MAX_VIEW_LINES),
{
    let mut lines = split_lines(content);
    let truncated = lines.len() > MAX_VIEW_LINES;
    lines.truncate(MAX_VIEW_LINES);
    (lines, truncated)
}

/// The lowercase hexadecimal digit of `d` (`d < 16`).
pub open spec fn hex_digit(d: nat) -> char {
    if d < 10 {
        (d + 48) as char
    } else {
        (d + 87) as char
    }
}

/// The lowercase hexadecimal notation of `n`.
pub open spec fn hex_of(n: nat) -> Seq<char>
    decreases n,
{
    if n < 16 {
        seq![hex_digit(n)]
    } else {
        hex_of(n / 16).push(hex_digit(n % 16))
    }
}

/// `s` with `'0'`s in front up to `width` characters.
pub open spec fn pad_zeros(s: Seq<char>, width: nat) -> Seq<char> {
    if s.len() < width {
        Seq::new((width - s.len()) as nat, |k: int| '0') + s
    } else {
        s
    }
}

/// `s` with spaces after it up to `width` characters.
pub open spec fn pad_spaces(s: Seq<char>, width: nat) -> Seq<char> {
    if s.len() < width {
        s + Seq::new((width - s.len()) as nat, |k: int| ' ')
    } else {
        s
    }
}

/// The two hexadecimal digits of a byte.
pub open spec fn hex_byte(b: u8) -> Seq<char> {
    seq![hex_digit((b / 16) as nat), hex_digit((b % 16) as nat)]
}

/// The hexadecimal column of a dump line: each byte as two digits and a
/// space, with one more space before the ninth byte.
pub open spec fn hex_column(chunk: Seq<u8>) -> Seq<char>
    decreases chunk.len(),
{
    if chunk.len() == 0 {
        Seq::empty()
    } else {
        let before = hex_column(chunk.drop_last());
        let gap = if chunk.len() - 1 == 8 { before.push(' ') } else { before };
        gap + hex_byte(chunk.last()) + seq![' ']
    }
}

/// A byte as shown in the text column: itself if printable ASCII, else `.`.
pub open spec fn shown_char(b: u8) -> char {
    if 0x20 <= b < 0x7f {
        b as char
    } else {
        '.'
    }
}

/// The text column of a dump line.
pub open spec fn ascii_column(chunk: Seq<u8>) -> Seq<char> {
    Seq::new(chunk.len(), |k: int| shown_char(chunk[k]))
}

/// One line of a hex dump, as `hexdump -C` prints it: the offset on eight
/// hexadecimal digits, the bytes in hexadecimal, then as text between bars.
pub open spec fn dump_line(offset: nat, chunk: Seq<u8>) -> Seq<char> {
    pad_zeros(hex_of(offset), 8) + seq![' ', ' '] + pad_spaces(hex_column(chunk), 49) + seq![' ', '|']
        + ascii_column(chunk) + seq!['|']
}

/// The bytes of line `i` of a dump: the `i`-th run of sixteen.
pub open spec fn dump_chunk(bytes: Seq<u8>, i: nat) -> Seq<u8> {
    let start = 16 * i;
    let end = if start + 16 <= bytes.len() { start + 16 } else { bytes.len() };
    bytes.subrange(start as int, end as int)
}

/// The hex dump of `bytes`, one line per sixteen bytes.
pub open spec fn hex_dump(bytes: Seq<u8>) -> Seq<Seq<char>> {
    Seq::new((bytes.len() + 15) / 16, |i: int| dump_line((16 * i) as nat, dump_chunk(bytes, i as nat)))
}

fn hex_digit_char(d: u8) -> (c: char)
    requires
        d < 16,
    ensures
        c == hex_digit(d as nat),
{
    if d < 10 {
        (d + 48) as char
    } else {
        (d + 87) as char
    }
}

fn push_hex(s: &mut String, n: usize)
    ensures
        final(s)@ == old(s)@ + hex_of(n as nat),
    decreases n,
{
    if n >= 16 {
        push_hex(s, n / 16);
    }
    push_char(s, hex_digit_char((n % 16) as u8));
}

proof fn lemma_hex_len(n: nat)
    ensures
        1 <= hex_of(n).len() <= n + 1,
    decreases n,
{
    if n >= 16 {
        lemma_hex_len(n / 16);
    }
}

/// `16^k`.
pub open spec fn sixteen_pow(k: nat) -> nat
    decreases k,
{
    if k == 0 {
        1
    } else {
        16 * sixteen_pow((k - 1) as nat)
    }
}

proof fn lemma_hex_len_bound(n: nat, k: nat)
    requires
        k >= 1,
        n < sixteen_pow(k),
    ensures
        hex_of(n).len() <= k,
    decreases k,
{
    if n >= 16 {
        if k == 1 {
            assert(sixteen_pow(1) == 16 * sixteen_pow(0));
        } else {
            lemma_hex_len_bound(n / 16, (k - 1) as nat);
        }
    }
}

/// The value of a lowercase hexadecimal digit.
pub open spec fn hex_digit_value(c: char) -> nat {
    if '0' <= c <= '9' {
        (c as nat - 48) as nat
    } else {
        (c as nat - 87) as nat
    }
}

/// The number that lowercase hexadecimal digits write.
pub open spec fn hex_text_value(s: Seq<char>) -> nat
    decreases s.len(),
{
    if s.len() == 0 {
        0
    } else {
        16 * hex_text_value(s.drop_last()) + hex_digit_value(s.last())
    }
}

proof fn lemma_hex_of_value(n: nat)
    ensures
        hex_text_value(hex_of(n)) == n,
    decreases n,
{
    if n >= 16 {
        lemma_hex_of_value(n / 16);
        assert(hex_of(n).drop_last() =~= hex_of(n / 16));
        assert(hex_of(n).last() == hex_digit(n % 16));
        assert(hex_digit_value(hex_digit(n % 16)) == n % 16);
        assert(hex_text_value(hex_of(n)) == 16 * hex_text_value(hex_of(n / 16)) + hex_digit_value(
            hex_digit(n % 16),
        ));
    } else {
        assert(hex_of(n).drop_last() =~= Seq::<char>::empty());
        assert(hex_digit_value(hex_digit(n)) == n);
        assert(hex_text_value(Seq::<char>::empty()) == 0);
        assert(hex_text_value(hex_of(n)) == 16 * hex_text_value(Seq::<char>::empty()) + hex_digit_value(
            hex_digit(n),
        ));
    }
}

proof fn lemma_leading_zeros_value(k: nat, s: Seq<char>)
    ensures
        hex_text_value(Seq::new(k, |i: int| '0') + s) == hex_text_value(s),
    decreases s.len(), k,
{
    if s.len() == 0 {
        assert(Seq::new(k, |i: int| '0') + s =~= Seq::new(k, |i: int| '0'));
        if k > 0 {
            assert(Seq::new(k, |i: int| '0').drop_last() =~= Seq::new((k - 1) as nat, |i: int| '0') + s);
            lemma_leading_zeros_value((k - 1) as nat, s);
        }
    } else {
        assert((Seq::new(k, |i: int| '0') + s).drop_last() =~= Seq::new(k, |i: int| '0') + s.drop_last());
        lemma_leading_zeros_value(k, s.drop_last());
    }
}

/// Where the two digits of byte `j` of a line start in its hexadecimal
/// column: three characters a byte, one more space before the ninth.
pub open spec fn hex_position(j: int) -> int {
    3 * j + if j >= 8 { 1int } else { 0int }
}

proof fn lemma_hex_column_layout(chunk: Seq<u8>)
    requires
        chunk.len() <= 16,
    ensures
        hex_column(chunk).len() == 3 * chunk.len() + if chunk.len() > 8 { 1int } else { 0int },
        forall|j: int| 0 <= j < chunk.len() ==> {
            &&& hex_column(chunk)[#[trigger] hex_position(j)] == hex_digit((chunk[j] / 16) as nat)
            &&& hex_column(chunk)[hex_position(j) + 1] == hex_digit((chunk[j] % 16) as nat)
            &&& hex_column(chunk)[hex_position(j) + 2] == ' '
        },
    decreases chunk.len(),
{
    if chunk.len() > 0 {
        let head = chunk.drop_last();
        lemma_hex_column_layout(head);
        let n = chunk.len() as int;
        assert forall|j: int| 0 <= j < chunk.len() implies {
            &&& hex_column(chunk)[#[trigger] hex_position(j)] == hex_digit((chunk[j] / 16) as nat)
            &&& hex_column(chunk)[hex_position(j) + 1] == hex_digit((chunk[j] % 16) as nat)
            &&& hex_column(chunk)[hex_position(j) + 2] == ' '
        } by {
            let gap = if n - 1 == 8 { hex_column(head).push(' ') } else { hex_column(head) };
            assert(hex_column(chunk) == gap + hex_byte(chunk.last()) + seq![' ']);
            if j < n - 1 {
                assert(head[j] == chunk[j]);
                assert(hex_position(j) + 2 < hex_column(head).len());
            } else {
                assert(gap.len() == hex_position(j));
            }
        }
    }
}

/// `line` reads back as the dump of `chunk` at `offset`: it is `62`
/// characters plus one a byte, it starts with the offset on eight
/// hexadecimal digits and two spaces, the two digits of each byte give its
/// value back, and the bytes follow as text between the bars at position `60`
/// and at the end.
pub open spec fn line_reads_back(offset: nat, chunk: Seq<u8>, line: Seq<char>) -> bool {
    &&& line.len() == 62 + chunk.len()
    &&& line.take(8) == pad_zeros(hex_of(offset), 8)
    &&& hex_text_value(line.take(8)) == offset
    &&& line[8] == ' ' && line[9] == ' '
    &&& forall|j: int| 0 <= j < chunk.len() ==> 16 * hex_digit_value(line[10 + #[trigger] hex_position(j)])
        + hex_digit_value(line[10 + hex_position(j) + 1]) == chunk[j]
    &&& line[60] == '|'
    &&& line.subrange(61, 61 + chunk.len() as int) == ascii_column(chunk)
    &&& line.last() == '|'
}

/// A line of a hex dump of one to sixteen bytes, at an offset that fits in
/// eight hexadecimal digits, reads back as those bytes.
pub proof fn law_dump_line_reads_back(offset: nat, chunk: Seq<u8>)
    requires
        0 < chunk.len() <= 16,
        offset < 0x1_0000_0000,
    ensures
        line_reads_back(offset, chunk, dump_line(offset, chunk)),
{
    reveal_with_fuel(sixteen_pow, 9);
    lemma_hex_len_bound(offset, 8);
    lemma_hex_column_layout(chunk);
    let col = hex_column(chunk);
    let head = pad_zeros(hex_of(offset), 8);
    let hexes = pad_spaces(col, 49);
    let line = dump_line(offset, chunk);
    assert(head.len() == 8);
    assert(hexes.len() == 49);
    assert(line.take(8) =~= head);
    lemma_hex_of_value(offset);
    if hex_of(offset).len() < 8 {
        lemma_leading_zeros_value((8 - hex_of(offset).len()) as nat, hex_of(offset));
    }
    assert forall|j: int| 0 <= j < chunk.len() implies 16 * hex_digit_value(line[10 + #[trigger] hex_position(j)])
        + hex_digit_value(line[10 + hex_position(j) + 1]) == chunk[j] by {
        let b = chunk[j];
        assert(line[10 + hex_position(j)] == col[hex_position(j)]);
        assert(line[10 + hex_position(j) + 1] == col[hex_position(j) + 1]);
        let hi = (b / 16) as nat;
        let lo = (b % 16) as nat;
        assert(hex_digit_value(hex_digit(hi)) == hi);
        assert(hex_digit_value(hex_digit(lo)) == lo);
    }
    assert(line.subrange(61, 61 + chunk.len() as int) =~= ascii_column(chunk));
}

/// The hex dump of at most `2^32` bytes has one line per run of sixteen,
/// the last one shorter, and each line reads back as its run of bytes.
pub proof fn law_hex_dump_reads_back(bytes: Seq<u8>)
    requires
        bytes.len() <= 0x1_0000_0000,
    ensures
        hex_dump(bytes).len() == (bytes.len() + 15) / 16,
        forall|i: int| 0 <= i < hex_dump(bytes).len() ==> {
            &&& dump_chunk(bytes, i as nat) == bytes.subrange(
                16 * i,
                if 16 * i + 16 <= bytes.len() { 16 * i + 16 } else { bytes.len() as int },
            )
            &&& 0 < dump_chunk(bytes, i as nat).len() <= 16
            &&& line_reads_back((16 * i) as nat, dump_chunk(bytes, i as nat), #[trigger] hex_dump(bytes)[i])
        },
{
    assert forall|i: int| 0 <= i < hex_dump(bytes).len() implies {
        &&& dump_chunk(bytes, i as nat) == bytes.subrange(
            16 * i,
            if 16 * i + 16 <= bytes.len() { 16 * i + 16 } else { bytes.len() as int },
        )
        &&& 0 < dump_chunk(bytes, i as nat).len() <= 16
        &&& line_reads_back((16 * i) as nat, dump_chunk(bytes, i as nat), #[trigger] hex_dump(bytes)[i])
    } by {
        assert(16 * i < bytes.len());
        law_dump_line_reads_back((16 * i) as nat, dump_chunk(bytes, i as nat));
    }
}

/// The text column of a hex dump shows each byte as itself when it is
/// printable ASCII (space to `~`) and as `.` otherwise, so that it holds
/// printable ASCII only: a newline or a tab never reaches the viewer.
pub proof fn law_dump_text_is_printable(bytes: Seq<u8>, i: int, j: int)
    requires
        bytes.len() <= 0x1_0000_0000,
        0 <= i,
        0 <= j < 16,
        16 * i + j < bytes.len(),
    ensures
        i < hex_dump(bytes).len(),
        ({
            let b = bytes[16 * i + j];
            let c = hex_dump(bytes)[i][61 + j];
            &&& 0x20 <= b < 0x7f ==> c == b as char
            &&& !(0x20 <= b < 0x7f) ==> c == '.'
            &&& 0x20 <= c as u32 && (c as u32) < 0x7f
        }),
{
    law_hex_dump_reads_back(bytes);
    assert(i < hex_dump(bytes).len());
    let chunk = dump_chunk(bytes, i as nat);
    let line = hex_dump(bytes)[i];
    assert(j < chunk.len());
    assert(chunk[j] == bytes[16 * i + j]);
    assert(line.subrange(61, 61 + chunk.len() as int)[j] == line[61 + j]);
    assert(ascii_column(chunk)[j] == shown_char(chunk[j]));
}

/// The number of hexadecimal digits of `n`.
fn hex_len(n: usize) -> (len: usize)
    ensures
        len == hex_of(n as nat).len(),
    decreases n,
{
    if n >= 16 {
        proof {
            lemma_hex_len((n / 16) as nat);
        }
        1 + hex_len(n / 16)
    } else {
        1
    }
}

/// The hex dump of the first `n` bytes of `bytes`.
fn hex_dump_prefix(bytes: &[u8], n: usize) -> (lines: Vec<String>)
    requires
        n <= bytes@.len(),
    ensures
        lines@.len() == hex_dump(bytes@.subrange(0, n as int)).len(),
        forall|k: int| 0 <= k < lines@.len() ==> #[trigger] lines@[k]@ == hex_dump(bytes@.subrange(0, n as int))[k],
{
    let ghost src = bytes@.subrange(0, n as int);
    let mut lines: Vec<String> = Vec::new();
    let mut start: usize = 0;
    let mut i: usize = 0;
    while start < n
        invariant
            n == src.len(),
                n <= bytes@.len(),
                src == bytes@.subrange(0, n as int),
            start <= n,
            start == 16 * i || (start == n && i == (n + 15) / 16),
            lines@.len() == i,
            forall|k: int| 0 <= k < lines@.len() ==> #[trigger] lines@[k]@ == hex_dump(src)[k],
        decreases n - start,
    {
        let end: usize = if n - start >= 16 { start + 16 } else { n };
        let ghost chunk = src.subrange(start as int, end as int);
        let mut line = String::new();
        let digits = hex_len(start);
        let mut z: usize = digits;
        while z < 8
            invariant
                digits <= z <= 8 || (digits > 8 && z == digits),
                line@ == Seq::new((z - digits) as nat, |k: int| '0'),
            decreases 8 - z,
        {
            push_char(&mut line, '0');
            assert(line@ =~= Seq::new((z + 1 - digits) as nat, |k: int| '0'));
            z = z + 1;
        }
        push_hex(&mut line, start);
        assert(line@ =~= pad_zeros(hex_of(start as nat), 8));
        push_char(&mut line, ' ');
        push_char(&mut line, ' ');
        let ghost prefix = line@;
        let mut j: usize = start;
        while j < end
            invariant
                start <= j <= end,
                end <= n,
                n == src.len(),
                n <= bytes@.len(),
                src == bytes@.subrange(0, n as int),
                end - start <= 16,
                line@ == prefix + hex_column(src.subrange(start as int, j as int)),
                hex_column(src.subrange(start as int, j as int)).len() == 3 * (j - start) + if j - start > 8 { 1int } else { 0 },
            decreases end - j,
        {
            let b = bytes[j];
            let ghost sub = src.subrange(start as int, j as int);
            assert(src.subrange(start as int, j + 1).drop_last() =~= sub);
            if j - start == 8 {
                push_char(&mut line, ' ');
            }
            push_char(&mut line, hex_digit_char(b / 16));
            push_char(&mut line, hex_digit_char(b % 16));
            push_char(&mut line, ' ');
            j = j + 1;
            assert(line@ =~= prefix + hex_column(src.subrange(start as int, j as int)));
        }
        let ghost col = hex_column(chunk);
        let mut w: usize = 3 * (end - start) + if end - start > 8 { 1 } else { 0 };
        while w < 49
            invariant
                w <= 49,
                col.len() <= w,
                line@ == prefix + col + Seq::new((w - col.len()) as nat, |k: int| ' '),
            decreases 49 - w,
        {
            push_char(&mut line, ' ');
            assert(line@ =~= prefix + col + Seq::new((w + 1 - col.len()) as nat, |k: int| ' '));
            w = w + 1;
        }
        assert(line@ =~= prefix + pad_spaces(col, 49));
        push_char(&mut line, ' ');
        push_char(&mut line, '|');
        let ghost prefix2 = line@;
        let mut j: usize = start;
        while j < end
            invariant
                start <= j <= end,
                end <= n,
                n == src.len(),
                n <= bytes@.len(),
                src == bytes@.subrange(0, n as int),
                line@ == prefix2 + ascii_column(src.subrange(start as int, j as int)),
            decreases end - j,
        {
            let b = bytes[j];
            let c = if 0x20 <= b && b < 0x7f { b as char } else { '.' };
            push_char(&mut line, c);
            j = j + 1;
            assert(line@ =~= prefix2 + ascii_column(src.subrange(start as int, j as int)));
        }
        push_char(&mut line, '|');
        assert(line@ =~= dump_line(start as nat, chunk));
        assert(chunk == dump_chunk(src, i as nat));
        lines.push(line);
        start = end;
        i = i + 1;
    }
    lines
}

/// Formats `bytes` like `hexdump -C`: offset, sixteen bytes in hexadecimal
/// (an extra space after the eighth), then their ASCII rendering between bars.
pub fn hex_dump_lines(bytes: &[u8]) -> (lines: Vec<String>)
    ensures
        lines@.len() == hex_dump(bytes@).len(),
        forall|k: int| 0 <= k < lines@.len() ==> #[trigger] lines@[k]@ == hex_dump(bytes@)[k],
{
    assert(bytes@.subrange(0, bytes@.len() as int) =~= bytes@);
    hex_dump_prefix(bytes, bytes.len())
}

/// The lines the hex viewer shows for a file's bytes: the dump of at most
/// `MAX_VIEW_LINES` lines of sixteen bytes, and whether bytes were left out.
pub fn hex_view(bytes: &[u8]) -> (r: (Vec<String>, bool))
    ensures
        r.1 == (bytes@.len() > MAX_VIEW_LINES * 16),
        r.0@.len() == hex_dump(bytes@.take(if r.1 { MAX_VIEW_LINES * 16 } else { bytes@.len() as int })).len(),
        forall|k: int| 0 <= k < r.0@.len() ==> #[trigger] r.0@[k]@
            == hex_dump(bytes@.take(if r.1 { MAX_VIEW_LINES * 16 } else { bytes@.len() as int }))[k],
{
    let max_bytes: usize = MAX_VIEW_LINES * 16;
    let truncated = bytes.len() > max_bytes;
    let n = if truncated { max_bytes } else { bytes.len() };
    let lines = hex_dump_prefix(bytes, n);
    assert(bytes@.take(n as int) =~= bytes@.subrange(0, n as int));
    (lines, truncated)
}

/// Whether a file whose content starts with `bytes` is shown as text: no
/// zero byte among its first 8192 bytes.
pub fn looks_like_text(bytes: &[u8]) -> (r: bool)
    ensures
        r == !(exists|k: int| 0 <= k < bytes@.len() && k < 8192 && bytes@[k] == 0),
{
    let n = if bytes.len() < 8192 { bytes.len() } else { 8192 };
    for i in 0..n
        invariant
            n <= bytes@.len(),
            n <= 8192,
            n == bytes@.len() || n == 8192,
            forall|k: int| 0 <= k < i ==> bytes@[k] != 0,
    {
        if bytes[i] == 0 {
            return false;
        }
    }
    true
}

/// The extensions "Extract" opens, compared in lowercase.
pub open spec fn archive_extensions() -> Seq<Seq<char>> {
    seq![
        "zip"@, "tar"@, "gz"@, "tgz"@, "bz2"@, "tbz2"@, "xz"@, "txz"@, "7z"@, "rar"@, "zst"@, "lz"@,
        "lzma"@, "cab"@, "iso"@,
    ]
}

/// Whether `path` names an archive: its extension, in lowercase, is one of
/// the archive extensions.
pub open spec fn is_archive_path(path: Seq<char>) -> bool {
    match path_extension(path) {
        Some(ext) => archive_extensions().contains(lowercase(ext)),
        None => false,
    }
}

/// Whether `path` names an archive that "Extract" can open.
pub fn is_archive_file(path: &str) -> (r: bool)
    ensures
        r == is_archive_path(path@),
{
    let ext = match extension_of(path) {
        Some(ext) => ext,
        None => return false,
    };
    let lower = to_lowercase(ext.as_str());
    let known: Vec<&str> = vec![
        "zip", "tar", "gz", "tgz", "bz2", "tbz2", "xz", "txz", "7z", "rar", "zst", "lz", "lzma", "cab", "iso",
    ];
    assert(known@.len() == archive_extensions().len());
    assert(forall|k: int| 0 <= k < known@.len() ==> #[trigger] known@[k]@ == archive_extensions()[k]);
    for i in 0..known.len()
        invariant
            known@.len() == archive_extensions().len(),
            forall|k: int| 0 <= k < known@.len() ==> #[trigger] known@[k]@ == archive_extensions()[k],
            forall|k: int| 0 <= k < i ==> archive_extensions()[k] != lower@,
            path_extension(path@) == Some(ext@),
            lower@ == lowercase(ext@),
    {
        let candidate: &str = known[i];
        let candidate: String = candidate.to_owned();
        if lower == candidate {
            assert(archive_extensions()[i as int] == lower@);
            assert(archive_extensions().contains(lower@));
            return true;
        }
    }
    false
}

/// Whether bit `shift` of `mode` is set.
pub open spec fn mode_bit(mode: u32, shift: u32) -> bool {
    (mode >> shift) & 1 != 0
}

/// The read, write and execute rights for the owner, the group and the
/// others, as the permission bits of `mode` give them.
pub fn permission_flags(mode: u32) -> (r: ([bool; 3], [bool; 3], [bool; 3]))
    ensures
        r.0[0] == mode_bit(mode, 8) && r.0[1] == mode_bit(mode, 7) && r.0[2] == mode_bit(mode, 6),
        r.1[0] == mode_bit(mode, 5) && r.1[1] == mode_bit(mode, 4) && r.1[2] == mode_bit(mode, 3),
        r.2[0] == mode_bit(mode, 2) && r.2[1] == mode_bit(mode, 1) && r.2[2] == mode_bit(mode, 0),
{
    let owner = [(mode >> 8) & 1 != 0, (mode >> 7) & 1 != 0, (mode >> 6) & 1 != 0];
    let group = [(mode >> 5) & 1 != 0, (mode >> 4) & 1 != 0, (mode >> 3) & 1 != 0];
    let other = [(mode >> 2) & 1 != 0, (mode >> 1) & 1 != 0, mode & 1 != 0];
    assert(mode >> 0u32 == mode) by (bit_vector);
    (owner, group, other)
}

/// The value of the read, write and execute flags placed from bit `shift` up.
pub open spec fn rwx_bits(r: bool, w: bool, x: bool, shift: u32) -> u32 {
    ((if r { 1u32 } else { 0u32 }) << ((shift + 2) as u32)) | ((if w { 1u32 } else { 0u32 }) << ((shift + 1) as u32))
        | ((if x { 1u32 } else { 0u32 }) << shift)
}

/// The permission bits that rights (read, write, execute for the owner, the
/// group and the others) make.
pub open spec fn mode_of(owner: [bool; 3], group: [bool; 3], other: [bool; 3]) -> u32 {
    rwx_bits(owner[0], owner[1], owner[2], 6) | rwx_bits(group[0], group[1], group[2], 3)
        | rwx_bits(other[0], other[1], other[2], 0)
}

fn bits_of(flags: [bool; 3], shift: u32) -> (b: u32)
    requires
        shift <= 6,
    ensures
        b == rwx_bits(flags[0], flags[1], flags[2], shift),
{
    let r: u32 = if flags[0] { 1 } else { 0 };
    let w: u32 = if flags[1] { 1 } else { 0 };
    let x: u32 = if flags[2] { 1 } else { 0 };
    (r << (shift + 2)) | (w << (shift + 1)) | (x << shift)
}

/// The permission bits that the rights of the owner, the group and the
/// others make.
pub fn mode_from_flags(owner: [bool; 3], group: [bool; 3], other: [bool; 3]) -> (mode: u32)
    ensures
        mode == mode_of(owner, group, other),
{
    bits_of(owner, 6) | bits_of(group, 3) | bits_of(other, 0)
}

/// The octal digit of read, write and execute rights: 4 for read, 2 for
/// write, 1 for execute.
pub open spec fn rights_digit(r: bool, w: bool, x: bool) -> int {
    (if r { 4int } else { 0int }) + (if w { 2int } else { 0int }) + (if x { 1int } else { 0int })
}

/// A mode made of rights is the octal number of three digits, owner, group
/// and others, each the sum of 4 for read, 2 for write and 1 for execute:
/// rw- r-x --- makes 0o650.
pub proof fn law_mode_is_octal_rights(owner: [bool; 3], group: [bool; 3], other: [bool; 3])
    ensures
        mode_of(owner, group, other) as int == 64 * rights_digit(owner[0], owner[1], owner[2]) + 8 * rights_digit(
            group[0],
            group[1],
            group[2],
        ) + rights_digit(other[0], other[1], other[2]),
{
    let (a, b, c) = (owner[0], owner[1], owner[2]);
    let (d, e, f) = (group[0], group[1], group[2]);
    let (g, h, i) = (other[0], other[1], other[2]);
    assert(rwx_bits(a, b, c, 6) | rwx_bits(d, e, f, 3) | rwx_bits(g, h, i, 0) == 64 * ((if a { 4u32 } else { 0u32 })
        + (if b { 2u32 } else { 0u32 }) + (if c { 1u32 } else { 0u32 })) + 8 * ((if d { 4u32 } else { 0u32 }) + (
    if e { 2u32 } else { 0u32 }) + (if f { 1u32 } else { 0u32 })) + ((if g { 4u32 } else { 0u32 }) + (if h {
        2u32
    } else {
        0u32
    }) + (if i { 1u32 } else { 0u32 }))) by (bit_vector);
}

/// The rights read out of a mode are its three low octal digits: the owner
/// digit, then the group digit, then the one for others; 0o750 reads as
/// rwx r-x ---.
pub proof fn law_rights_are_octal_digits(mode: u32)
    ensures
        rights_digit(mode_bit(mode, 8), mode_bit(mode, 7), mode_bit(mode, 6)) == (mode / 64) % 8,
        rights_digit(mode_bit(mode, 5), mode_bit(mode, 4), mode_bit(mode, 3)) == (mode / 8) % 8,
        rights_digit(mode_bit(mode, 2), mode_bit(mode, 1), mode_bit(mode, 0)) == mode % 8,
{
    assert((if (mode >> 8u32) & 1 != 0 { 4u32 } else { 0u32 }) + (if (mode >> 7u32) & 1 != 0 { 2u32 } else { 0u32 })
        + (if (mode >> 6u32) & 1 != 0 { 1u32 } else { 0u32 }) == (mode / 64) % 8) by (bit_vector);
    assert((if (mode >> 5u32) & 1 != 0 { 4u32 } else { 0u32 }) + (if (mode >> 4u32) & 1 != 0 { 2u32 } else { 0u32 })
        + (if (mode >> 3u32) & 1 != 0 { 1u32 } else { 0u32 }) == (mode / 8) % 8) by (bit_vector);
    assert((if (mode >> 2u32) & 1 != 0 { 4u32 } else { 0u32 }) + (if (mode >> 1u32) & 1 != 0 { 2u32 } else { 0u32 })
        + (if (mode >> 0u32) & 1 != 0 { 1u32 } else { 0u32 }) == mode % 8) by (bit_vector);
}

/// Reading the rights out of a mode and making a mode of them again gives
/// the permission bits of the mode back.
pub proof fn law_mode_flags_roundtrip(mode: u32)
    ensures
        rwx_bits(mode_bit(mode, 8), mode_bit(mode, 7), mode_bit(mode, 6), 6)
            | rwx_bits(mode_bit(mode, 5), mode_bit(mode, 4), mode_bit(mode, 3), 3)
            | rwx_bits(mode_bit(mode, 2), mode_bit(mode, 1), mode_bit(mode, 0), 0) == mode & 0o777,
{
    assert(rwx_bits(mode_bit(mode, 8), mode_bit(mode, 7), mode_bit(mode, 6), 6)
        | rwx_bits(mode_bit(mode, 5), mode_bit(mode, 4), mode_bit(mode, 3), 3)
        | rwx_bits(mode_bit(mode, 2), mode_bit(mode, 1), mode_bit(mode, 0), 0) == mode & 0o777) by (bit_vector);
}

/// Making a mode of rights and reading the rights out of it gives the same
/// rights back.
pub proof fn law_flags_mode_roundtrip(owner: [bool; 3], group: [bool; 3], other: [bool; 3])
    ensures
        mode_bit(mode_of(owner, group, other), 8) == owner[0],
        mode_bit(mode_of(owner, group, other), 7) == owner[1],
        mode_bit(mode_of(owner, group, other), 6) == owner[2],
        mode_bit(mode_of(owner, group, other), 5) == group[0],
        mode_bit(mode_of(owner, group, other), 4) == group[1],
        mode_bit(mode_of(owner, group, other), 3) == group[2],
        mode_bit(mode_of(owner, group, other), 2) == other[0],
        mode_bit(mode_of(owner, group, other), 1) == other[1],
        mode_bit(mode_of(owner, group, other), 0) == other[2],
{
    let (a, b, c) = (owner[0], owner[1], owner[2]);
    let (d, e, f) = (group[0], group[1], group[2]);
    let (g, h, i) = (other[0], other[1], other[2]);
    assert({
        let m = rwx_bits(a, b, c, 6) | rwx_bits(d, e, f, 3) | rwx_bits(g, h, i, 0);
        &&& mode_bit(m, 8) == a
        &&& mode_bit(m, 7) == b
        &&& mode_bit(m, 6) == c
        &&& mode_bit(m, 5) == d
        &&& mode_bit(m, 4) == e
        &&& mode_bit(m, 3) == f
        &&& mode_bit(m, 2) == g
        &&& mode_bit(m, 1) == h
        &&& mode_bit(m, 0) == i
    }) by (bit_vector);
}

/// The name a rename asks for: the trimmed new name, unless it is empty or
/// the old name.
pub open spec fn rename_to(old_name: Seq<char>, new_name: Seq<char>) -> Option<Seq<char>> {
    if trimmed(new_name).len() == 0 || trimmed(new_name) == old_name {
        None
    } else {
        Some(trimmed(new_name))
    }
}

/// The name the entry `old_name` is renamed to, if the rename does anything.
pub fn rename_target(old_name: &str, new_name: &str) -> (r: Option<String>)
    ensures
        crate::button_bar::opt_view(r) == rename_to(old_name@, new_name@),
        r is Some <==> (trimmed(new_name@).len() > 0 && trimmed(new_name@) != old_name@),
        r matches Some(name) ==> name@ == trimmed(new_name@),
{
    let name = trim(new_name);
    let old = old_name.to_owned();
    if name.as_str().is_empty() || name == old {
        None
    } else {
        Some(name)
    }
}

/// A rename happens whenever the trimmed new name is not empty and differs
/// from the old name as text, case counting: `readme.md` can become
/// `README.md`; it then takes exactly the trimmed new name.
pub proof fn law_rename_when_text_differs(old_name: Seq<char>, new_name: Seq<char>)
    ensures
        rename_to(old_name, new_name) is Some <==> (trimmed(new_name).len() > 0 && trimmed(new_name) != old_name),
        rename_to(old_name, new_name) matches Some(n) ==> n == trimmed(new_name),
{
}

/// The name of the directory to create: the trimmed name, if not empty.
pub fn new_folder_name(name: &str) -> (r: Option<String>)
    ensures
        crate::button_bar::opt_view(r) == if trimmed(name@).len() == 0 { None } else { Some(trimmed(name@)) },
{
    let name = trim(name);
    if name.as_str().is_empty() {
        None
    } else {
        Some(name)
    }
}

/// The device and mount point to mount: both trimmed, when neither is empty.
pub fn mount_request(device: &str, mount_point: &str) -> (r: Option<(String, String)>)
    ensures
        r is Some == (trimmed(device@).len() > 0 && trimmed(mount_point@).len() > 0),
        r matches Some(p) ==> p.0@ == trimmed(device@) && p.1@ == trimmed(mount_point@),
{
    let device = trim(device);
    let mount_point = trim(mount_point);
    if device.as_str().is_empty() || mount_point.as_str().is_empty() {
        None
    } else {
        Some((device, mount_point))
    }
}

/// The message of a failed `mount`, with its trimmed error output if any.
pub open spec fn mount_failure_text(device: Seq<char>, mount_point: Seq<char>, stderr: Seq<char>) -> Seq<char> {
    if trimmed(stderr).len() == 0 {
        "Mount of "@ + device + " on "@ + mount_point + " failed."@
    } else {
        "Mount of "@ + device + " on "@ + mount_point + " failed:\n"@ + trimmed(stderr)
    }
}

/// The message of a failed `mount`.
pub fn mount_failure_message(device: &str, mount_point: &str, stderr: &str) -> (t: String)
    ensures
        t@ == mount_failure_text(device@, mount_point@, stderr@),
{
    let err = trim(stderr);
    let mut t = String::new();
    push_str(&mut t, "Mount of ");
    push_str(&mut t, device);
    push_str(&mut t, " on ");
    push_str(&mut t, mount_point);
    if err.as_str().is_empty() {
        push_str(&mut t, " failed.");
    } else {
        push_str(&mut t, " failed:\n");
        push_str(&mut t, err.as_str());
    }
    t
}

/// How a run is named in messages: the program, followed by its trimmed
/// arguments when there are any.
pub open spec fn run_label_text(path: Seq<char>, args: Seq<char>) -> Seq<char> {
    if trimmed(args).len() == 0 {
        path
    } else {
        path + seq![' '] + trimmed(args)
    }
}

/// How a run is named in messages.
pub fn run_label(path: &str, args: &str) -> (t: String)
    ensures
        t@ == run_label_text(path@, args@),
{
    let args = trim(args);
    let mut t = path.to_owned();
    if !args.as_str().is_empty() {
        push_char(&mut t, ' ');
        push_str(&mut t, args.as_str());
    }
    t
}

/// The question asked before deleting `count` entries among which are
/// non-empty directories.
pub fn delete_confirmation(count: usize) -> (t: String)
    ensures
        t@ == "Delete "@ + decimal(count as nat) + " item(s), including non-empty folder(s)?"@,
{
    let mut t = String::new();
    push_str(&mut t, "Delete ");
    push_decimal(&mut t, count as u64);
    push_str(&mut t, " item(s), including non-empty folder(s)?");
    t
}

/// What a click on a shortcut or a button asks for.
pub enum ButtonAction {
    /// Show this directory in the active panel.
    Goto(String),
    /// Edit the shortcut of this row.
    EditDrive(usize),
    SelectAll,
    SelectNone,
    Parent,
    Root,
    Copy,
    Move,
    MakeDir,
    Mount,
    Find,
    Search,
    Run,
    Read,
    Datestamp,
    Permissions,
    Edit,
    Upx,
    Extract,
    HexRead,
    Rename,
    Delete,
    /// An action nothing handles (yet).
    Unknown,
}

/// The named action of a button, when `action` is not a `goto:` or
/// `edit_drive:` one.
pub open spec fn named_action(action: Seq<char>) -> ButtonAction {
    if action == "select_all"@ {
        ButtonAction::SelectAll
    } else if action == "select_none"@ {
        ButtonAction::SelectNone
    } else if action == "parent"@ {
        ButtonAction::Parent
    } else if action == "root"@ {
        ButtonAction::Root
    } else if action == "copy"@ {
        ButtonAction::Copy
    } else if action == "move"@ {
        ButtonAction::Move
    } else if action == "makedir"@ {
        ButtonAction::MakeDir
    } else if action == "mount"@ {
        ButtonAction::Mount
    } else if action == "find"@ {
        ButtonAction::Find
    } else if action == "search"@ {
        ButtonAction::Search
    } else if action == "run"@ {
        ButtonAction::Run
    } else if action == "read"@ {
        ButtonAction::Read
    } else if action == "datestamp"@ {
        ButtonAction::Datestamp
    } else if action == "permissions"@ {
        ButtonAction::Permissions
    } else if action == "edit"@ {
        ButtonAction::Edit
    } else if action == "upx"@ {
        ButtonAction::Upx
    } else if action == "extract"@ {
        ButtonAction::Extract
    } else if action == "hex_read"@ {
        ButtonAction::HexRead
    } else if action == "rename"@ {
        ButtonAction::Rename
    } else if action == "delete"@ {
        ButtonAction::Delete
    } else {
        ButtonAction::Unknown
    }
}

fn text_is(a: &str, b: &str) -> (r: bool)
    ensures
        r == (a@ == b@),
{
    let a = a.to_owned();
    let b = b.to_owned();
    a == b
}

/// What the action text `action` asks for: `goto:<path>` shows a path,
/// `edit_drive:<row>` edits a shortcut (when `<row>` reads as a number),
/// otherwise the name of a button action.
pub fn parse_action(action: &str) -> (r: ButtonAction)
    ensures
        begins_with(action@, "goto:"@) ==> (r matches ButtonAction::Goto(target)
            && target@ == action@.skip("goto:"@.len() as int)),
        !begins_with(action@, "goto:"@) && begins_with(action@, "edit_drive:"@)
            && parsed_usize(action@.skip("edit_drive:"@.len() as int)) is Some
            ==> (r matches ButtonAction::EditDrive(row)
            && row == parsed_usize(action@.skip("edit_drive:"@.len() as int))->0),
        !begins_with(action@, "goto:"@) && !(begins_with(action@, "edit_drive:"@)
            && parsed_usize(action@.skip("edit_drive:"@.len() as int)) is Some)
            ==> r == named_action(action@),
{
    let chars = chars_of(action);
    proof {
        reveal_strlit("goto:");
        reveal_strlit("edit_drive:");
    }
    if has_prefix(&chars, "goto:") {
        return ButtonAction::Goto(string_from_chars(&chars, 5, chars.len()));
    }
    if has_prefix(&chars, "edit_drive:") {
        if let Some(row) = parse_usize_from(&chars, 11) {
            return ButtonAction::EditDrive(row);
        }
    }
    if text_is(action, "select_all") {
        ButtonAction::SelectAll
    } else if text_is(action, "select_none") {
        ButtonAction::SelectNone
    } else if text_is(action, "parent") {
        ButtonAction::Parent
    } else if text_is(action, "root") {
        ButtonAction::Root
    } else if text_is(action, "copy") {
        ButtonAction::Copy
    } else if text_is(action, "move") {
        ButtonAction::Move
    } else if text_is(action, "makedir") {
        ButtonAction::MakeDir
    } else if text_is(action, "mount") {
        ButtonAction::Mount
    } else if text_is(action, "find") {
        ButtonAction::Find
    } else if text_is(action, "search") {
        ButtonAction::Search
    } else if text_is(action, "run") {
        ButtonAction::Run
    } else if text_is(action, "read") {
        ButtonAction::Read
    } else if text_is(action, "datestamp") {
        ButtonAction::Datestamp
    } else if text_is(action, "permissions") {
        ButtonAction::Permissions
    } else if text_is(action, "edit") {
        ButtonAction::Edit
    } else if text_is(action, "upx") {
        ButtonAction::Upx
    } else if text_is(action, "extract") {
        ButtonAction::Extract
    } else if text_is(action, "hex_read") {
        ButtonAction::HexRead
    } else if text_is(action, "rename") {
        ButtonAction::Rename
    } else if text_is(action, "delete") {
        ButtonAction::Delete
    } else {
        ButtonAction::Unknown
    }
}

/// What the button labelled `label` is there for.
pub open spec fn label_action(label: Seq<char>) -> ButtonAction {
    if label == "All"@ {
        ButtonAction::SelectAll
    } else if label == "None"@ {
        ButtonAction::SelectNone
    } else if label == "Parent"@ {
        ButtonAction::Parent
    } else if label == "Root"@ {
        ButtonAction::Root
    } else if label == "Copy"@ {
        ButtonAction::Copy
    } else if label == "Move"@ {
        ButtonAction::Move
    } else if label == "Rename"@ {
        ButtonAction::Rename
    } else if label == "DELETE"@ {
        ButtonAction::Delete
    } else if label == "Makedir"@ {
        ButtonAction::MakeDir
    } else if label == "Mount"@ {
        ButtonAction::Mount
    } else if label == "Find"@ {
        ButtonAction::Find
    } else if label == "Search"@ {
        ButtonAction::Search
    } else if label == "Run"@ {
        ButtonAction::Run
    } else if label == "Datestamp"@ {
        ButtonAction::Datestamp
    } else if label == "Permissions"@ {
        ButtonAction::Permissions
    } else if label == "Extract"@ {
        ButtonAction::Extract
    } else if label == "Read"@ {
        ButtonAction::Read
    } else if label == "Hex Read"@ {
        ButtonAction::HexRead
    } else if label == "Edit"@ {
        ButtonAction::Edit
    } else {
        ButtonAction::Unknown
    }
}

/// The buttons of row 0 of the default grid read back as their labels say.
proof fn lemma_row_0_reads_back()
    ensures
        named_action("select_all"@) == label_action("All"@),
        named_action("select_all"@) == ButtonAction::SelectAll,
        named_action("copy"@) == label_action("Copy"@),
        named_action("copy"@) == ButtonAction::Copy,
        named_action("makedir"@) == label_action("Makedir"@),
        named_action("makedir"@) == ButtonAction::MakeDir,
        named_action("find"@) == label_action("Find"@),
        named_action("find"@) == ButtonAction::Find,
        named_action("run"@) == label_action("Run"@),
        named_action("run"@) == ButtonAction::Run,
        named_action("datestamp"@) == label_action("Datestamp"@),
        named_action("datestamp"@) == ButtonAction::Datestamp,
        named_action("read"@) == label_action("Read"@),
        named_action("read"@) == ButtonAction::Read,
        !begins_with("select_all"@, "goto:"@) && !begins_with("select_all"@, "edit_drive:"@),
        !begins_with("copy"@, "goto:"@) && !begins_with("copy"@, "edit_drive:"@),
        !begins_with("makedir"@, "goto:"@) && !begins_with("makedir"@, "edit_drive:"@),
        !begins_with("find"@, "goto:"@) && !begins_with("find"@, "edit_drive:"@),
        !begins_with("run"@, "goto:"@) && !begins_with("run"@, "edit_drive:"@),
        !begins_with("datestamp"@, "goto:"@) && !begins_with("datestamp"@, "edit_drive:"@),
        !begins_with("read"@, "goto:"@) && !begins_with("read"@, "edit_drive:"@),
{
    reveal_strlit("goto:");
    reveal_strlit("edit_drive:");
    reveal_strlit("select_all");
    reveal_strlit("All");
    reveal_strlit("select_none");
    reveal_strlit("parent");
    reveal_strlit("root");
    reveal_strlit("copy");
    reveal_strlit("None");
    reveal_strlit("Parent");
    reveal_strlit("Root");
    reveal_strlit("Copy");
    reveal_strlit("move");
    reveal_strlit("makedir");
    reveal_strlit("Move");
    reveal_strlit("Rename");
    reveal_strlit("DELETE");
    reveal_strlit("Makedir");
    reveal_strlit("mount");
    reveal_strlit("find");
    reveal_strlit("Mount");
    reveal_strlit("Find");
    reveal_strlit("search");
    reveal_strlit("run");
    reveal_strlit("Search");
    reveal_strlit("Run");
    reveal_strlit("read");
    reveal_strlit("datestamp");
    reveal_strlit("Datestamp");
    reveal_strlit("Permissions");
    reveal_strlit("Extract");
    reveal_strlit("Read");

    assert("copy"@.len() != "select_all"@.len());
    assert("copy"@.len() != "select_none"@.len());
    assert("copy"@.len() != "parent"@.len());
    assert("copy"@[0] != "root"@[0]);
    assert("Copy"@.len() != "All"@.len());
    assert("Copy"@[0] != "None"@[0]);
    assert("Copy"@.len() != "Parent"@.len());
    assert("Copy"@[0] != "Root"@[0]);
    assert("makedir"@.len() != "select_all"@.len());
    assert("makedir"@.len() != "select_none"@.len());
    assert("makedir"@.len() != "parent"@.len());
    assert("makedir"@.len() != "root"@.len());
    assert("makedir"@.len() != "copy"@.len());
    assert("makedir"@.len() != "move"@.len());
    assert("Makedir"@.len() != "All"@.len());
    assert("Makedir"@.len() != "None"@.len());
    assert("Makedir"@.len() != "Parent"@.len());
    assert("Makedir"@.len() != "Root"@.len());
    assert("Makedir"@.len() != "Copy"@.len());
    assert("Makedir"@.len() != "Move"@.len());
    assert("Makedir"@.len() != "Rename"@.len());
    assert("Makedir"@.len() != "DELETE"@.len());
    assert("find"@.len() != "select_all"@.len());
    assert("find"@.len() != "select_none"@.len());
    assert("find"@.len() != "parent"@.len());
    assert("find"@[0] != "root"@[0]);
    assert("find"@[0] != "copy"@[0]);
    assert("find"@[0] != "move"@[0]);
    assert("find"@.len() != "makedir"@.len());
    assert("find"@.len() != "mount"@.len());
    assert("Find"@.len() != "All"@.len());
    assert("Find"@[0] != "None"@[0]);
    assert("Find"@.len() != "Parent"@.len());
    assert("Find"@[0] != "Root"@[0]);
    assert("Find"@[0] != "Copy"@[0]);
    assert("Find"@[0] != "Move"@[0]);
    assert("Find"@.len() != "Rename"@.len());
    assert("Find"@.len() != "DELETE"@.len());
    assert("Find"@.len() != "Makedir"@.len());
    assert("Find"@.len() != "Mount"@.len());
    assert("run"@.len() != "select_all"@.len());
    assert("run"@.len() != "select_none"@.len());
    assert("run"@.len() != "parent"@.len());
    assert("run"@.len() != "root"@.len());
    assert("run"@.len() != "copy"@.len());
    assert("run"@.len() != "move"@.len());
    assert("run"@.len() != "makedir"@.len());
    assert("run"@.len() != "mount"@.len());
    assert("run"@.len() != "find"@.len());
    assert("run"@.len() != "search"@.len());
    assert("Run"@[0] != "All"@[0]);
    assert("Run"@.len() != "None"@.len());
    assert("Run"@.len() != "Parent"@.len());
    assert("Run"@.len() != "Root"@.len());
    assert("Run"@.len() != "Copy"@.len());
    assert("Run"@.len() != "Move"@.len());
    assert("Run"@.len() != "Rename"@.len());
    assert("Run"@.len() != "DELETE"@.len());
    assert("Run"@.len() != "Makedir"@.len());
    assert("Run"@.len() != "Mount"@.len());
    assert("Run"@.len() != "Find"@.len());
    assert("Run"@.len() != "Search"@.len());
    assert("datestamp"@.len() != "select_all"@.len());
    assert("datestamp"@.len() != "select_none"@.len());
    assert("datestamp"@.len() != "parent"@.len());
    assert("datestamp"@.len() != "root"@.len());
    assert("datestamp"@.len() != "copy"@.len());
    assert("datestamp"@.len() != "move"@.len());
    assert("datestamp"@.len() != "makedir"@.len());
    assert("datestamp"@.len() != "mount"@.len());
    assert("datestamp"@.len() != "find"@.len());
    assert("datestamp"@.len() != "search"@.len());
    assert("datestamp"@.len() != "run"@.len());
    assert("datestamp"@.len() != "read"@.len());
    assert("Datestamp"@.len() != "All"@.len());
    assert("Datestamp"@.len() != "None"@.len());
    assert("Datestamp"@.len() != "Parent"@.len());
    assert("Datestamp"@.len() != "Root"@.len());
    assert("Datestamp"@.len() != "Copy"@.len());
    assert("Datestamp"@.len() != "Move"@.len());
    assert("Datestamp"@.len() != "Rename"@.len());
    assert("Datestamp"@.len() != "DELETE"@.len());
    assert("Datestamp"@.len() != "Makedir"@.len());
    assert("Datestamp"@.len() != "Mount"@.len());
    assert("Datestamp"@.len() != "Find"@.len());
    assert("Datestamp"@.len() != "Search"@.len());
    assert("Datestamp"@.len() != "Run"@.len());
    assert("read"@.len() != "select_all"@.len());
    assert("read"@.len() != "select_none"@.len());
    assert("read"@.len() != "parent"@.len());
    assert("read"@[1] != "root"@[1]);
    assert("read"@[0] != "copy"@[0]);
    assert("read"@[0] != "move"@[0]);
    assert("read"@.len() != "makedir"@.len());
    assert("read"@.len() != "mount"@.len());
    assert("read"@[0] != "find"@[0]);
    assert("read"@.len() != "search"@.len());
    assert("read"@.len() != "run"@.len());
    assert("Read"@.len() != "All"@.len());
    assert("Read"@[0] != "None"@[0]);
    assert("Read"@.len() != "Parent"@.len());
    assert("Read"@[1] != "Root"@[1]);
    assert("Read"@[0] != "Copy"@[0]);
    assert("Read"@[0] != "Move"@[0]);
    assert("Read"@.len() != "Rename"@.len());
    assert("Read"@.len() != "DELETE"@.len());
    assert("Read"@.len() != "Makedir"@.len());
    assert("Read"@.len() != "Mount"@.len());
    assert("Read"@[0] != "Find"@[0]);
    assert("Read"@.len() != "Search"@.len());
    assert("Read"@.len() != "Run"@.len());
    assert("Read"@.len() != "Datestamp"@.len());
    assert("Read"@.len() != "Permissions"@.len());
    assert("Read"@.len() != "Extract"@.len());
    assert("select_all"@[0] != "goto:"@[0]);
    assert("select_all"@.subrange(0, 5)[0] == "select_all"@[0]);
    assert("makedir"@[0] != "goto:"@[0]);
    assert("makedir"@.subrange(0, 5)[0] == "makedir"@[0]);
    assert("datestamp"@[0] != "goto:"@[0]);
    assert("datestamp"@.subrange(0, 5)[0] == "datestamp"@[0]);
}

/// The buttons of row 1 of the default grid read back as their labels say.
proof fn lemma_row_1_reads_back()
    ensures
        named_action("select_none"@) == label_action("None"@),
        named_action("select_none"@) == ButtonAction::SelectNone,
        named_action("move"@) == label_action("Move"@),
        named_action("move"@) == ButtonAction::Move,
        named_action("mount"@) == label_action("Mount"@),
        named_action("mount"@) == ButtonAction::Mount,
        named_action("search"@) == label_action("Search"@),
        named_action("search"@) == ButtonAction::Search,
        named_action("permissions"@) == label_action("Permissions"@),
        named_action("permissions"@) == ButtonAction::Permissions,
        named_action("hex_read"@) == label_action("Hex Read"@),
        named_action("hex_read"@) == ButtonAction::HexRead,
        !begins_with("select_none"@, "goto:"@) && !begins_with("select_none"@, "edit_drive:"@),
        !begins_with("move"@, "goto:"@) && !begins_with("move"@, "edit_drive:"@),
        !begins_with("mount"@, "goto:"@) && !begins_with("mount"@, "edit_drive:"@),
        !begins_with("search"@, "goto:"@) && !begins_with("search"@, "edit_drive:"@),
        !begins_with("permissions"@, "goto:"@) && !begins_with("permissions"@, "edit_drive:"@),
        !begins_with("hex_read"@, "goto:"@) && !begins_with("hex_read"@, "edit_drive:"@),
{
    reveal_strlit("goto:");
    reveal_strlit("edit_drive:");
    reveal_strlit("select_all");
    reveal_strlit("select_none");
    reveal_strlit("All");
    reveal_strlit("None");
    reveal_strlit("parent");
    reveal_strlit("root");
    reveal_strlit("copy");
    reveal_strlit("move");
    reveal_strlit("Parent");
    reveal_strlit("Root");
    reveal_strlit("Copy");
    reveal_strlit("Move");
    reveal_strlit("makedir");
    reveal_strlit("mount");
    reveal_strlit("Rename");
    reveal_strlit("DELETE");
    reveal_strlit("Makedir");
    reveal_strlit("Mount");
    reveal_strlit("find");
    reveal_strlit("search");
    reveal_strlit("Find");
    reveal_strlit("Search");
    reveal_strlit("run");
    reveal_strlit("read");
    reveal_strlit("datestamp");
    reveal_strlit("permissions");
    reveal_strlit("Run");
    reveal_strlit("Datestamp");
    reveal_strlit("Permissions");
    reveal_strlit("edit");
    reveal_strlit("upx");
    reveal_strlit("extract");
    reveal_strlit("hex_read");
    reveal_strlit("Extract");
    reveal_strlit("Read");
    reveal_strlit("Hex Read");
    assert("select_none"@.len() != "select_all"@.len());
    assert("None"@.len() != "All"@.len());
    assert("move"@.len() != "select_all"@.len());
    assert("move"@.len() != "select_none"@.len());
    assert("move"@.len() != "parent"@.len());
    assert("move"@[0] != "root"@[0]);
    assert("move"@[0] != "copy"@[0]);
    assert("Move"@.len() != "All"@.len());
    assert("Move"@[0] != "None"@[0]);
    assert("Move"@.len() != "Parent"@.len());
    assert("Move"@[0] != "Root"@[0]);
    assert("Move"@[0] != "Copy"@[0]);
    assert("mount"@.len() != "select_all"@.len());
    assert("mount"@.len() != "select_none"@.len());
    assert("mount"@.len() != "parent"@.len());
    assert("mount"@.len() != "root"@.len());
    assert("mount"@.len() != "copy"@.len());
    assert("mount"@.len() != "move"@.len());
    assert("mount"@.len() != "makedir"@.len());
    assert("Mount"@.len() != "All"@.len());
    assert("Mount"@.len() != "None"@.len());
    assert("Mount"@.len() != "Parent"@.len());
    assert("Mount"@.len() != "Root"@.len());
    assert("Mount"@.len() != "Copy"@.len());
    assert("Mount"@.len() != "Move"@.len());
    assert("Mount"@.len() != "Rename"@.len());
    assert("Mount"@.len() != "DELETE"@.len());
    assert("Mount"@.len() != "Makedir"@.len());
    assert("search"@.len() != "select_all"@.len());
    assert("search"@.len() != "select_none"@.len());
    assert("search"@[0] != "parent"@[0]);
    assert("search"@.len() != "root"@.len());
    assert("search"@.len() != "copy"@.len());
    assert("search"@.len() != "move"@.len());
    assert("search"@.len() != "makedir"@.len());
    assert("search"@.len() != "mount"@.len());
    assert("search"@.len() != "find"@.len());
    assert("Search"@.len() != "All"@.len());
    assert("Search"@.len() != "None"@.len());
    assert("Search"@[0] != "Parent"@[0]);
    assert("Search"@.len() != "Root"@.len());
    assert("Search"@.len() != "Copy"@.len());
    assert("Search"@.len() != "Move"@.len());
    assert("Search"@[0] != "Rename"@[0]);
    assert("Search"@[0] != "DELETE"@[0]);
    assert("Search"@.len() != "Makedir"@.len());
    assert("Search"@.len() != "Mount"@.len());
    assert("Search"@.len() != "Find"@.len());
    assert("permissions"@.len() != "select_all"@.len());
    assert("permissions"@[0] != "select_none"@[0]);
    assert("permissions"@.len() != "parent"@.len());
    assert("permissions"@.len() != "root"@.len());
    assert("permissions"@.len() != "copy"@.len());
    assert("permissions"@.len() != "move"@.len());
    assert("permissions"@.len() != "makedir"@.len());
    assert("permissions"@.len() != "mount"@.len());
    assert("permissions"@.len() != "find"@.len());
    assert("permissions"@.len() != "search"@.len());
    assert("permissions"@.len() != "run"@.len());
    assert("permissions"@.len() != "read"@.len());
    assert("permissions"@.len() != "datestamp"@.len());
    assert("Permissions"@.len() != "All"@.len());
    assert("Permissions"@.len() != "None"@.len());
    assert("Permissions"@.len() != "Parent"@.len());
    assert("Permissions"@.len() != "Root"@.len());
    assert("Permissions"@.len() != "Copy"@.len());
    assert("Permissions"@.len() != "Move"@.len());
    assert("Permissions"@.len() != "Rename"@.len());
    assert("Permissions"@.len() != "DELETE"@.len());
    assert("Permissions"@.len() != "Makedir"@.len());
    assert("Permissions"@.len() != "Mount"@.len());
    assert("Permissions"@.len() != "Find"@.len());
    assert("Permissions"@.len() != "Search"@.len());
    assert("Permissions"@.len() != "Run"@.len());
    assert("Permissions"@.len() != "Datestamp"@.len());
    assert("hex_read"@.len() != "select_all"@.len());
    assert("hex_read"@.len() != "select_none"@.len());
    assert("hex_read"@.len() != "parent"@.len());
    assert("hex_read"@.len() != "root"@.len());
    assert("hex_read"@.len() != "copy"@.len());
    assert("hex_read"@.len() != "move"@.len());
    assert("hex_read"@.len() != "makedir"@.len());
    assert("hex_read"@.len() != "mount"@.len());
    assert("hex_read"@.len() != "find"@.len());
    assert("hex_read"@.len() != "search"@.len());
    assert("hex_read"@.len() != "run"@.len());
    assert("hex_read"@.len() != "read"@.len());
    assert("hex_read"@.len() != "datestamp"@.len());
    assert("hex_read"@.len() != "permissions"@.len());
    assert("hex_read"@.len() != "edit"@.len());
    assert("hex_read"@.len() != "upx"@.len());
    assert("hex_read"@.len() != "extract"@.len());
    assert("Hex Read"@.len() != "All"@.len());
    assert("Hex Read"@.len() != "None"@.len());
    assert("Hex Read"@.len() != "Parent"@.len());
    assert("Hex Read"@.len() != "Root"@.len());
    assert("Hex Read"@.len() != "Copy"@.len());
    assert("Hex Read"@.len() != "Move"@.len());
    assert("Hex Read"@.len() != "Rename"@.len());
    assert("Hex Read"@.len() != "DELETE"@.len());
    assert("Hex Read"@.len() != "Makedir"@.len());
    assert("Hex Read"@.len() != "Mount"@.len());
    assert("Hex Read"@.len() != "Find"@.len());
    assert("Hex Read"@.len() != "Search"@.len());
    assert("Hex Read"@.len() != "Run"@.len());
    assert("Hex Read"@.len() != "Datestamp"@.len());
    assert("Hex Read"@.len() != "Permissions"@.len());
    assert("Hex Read"@.len() != "Extract"@.len());
    assert("Hex Read"@.len() != "Read"@.len());
    assert("select_none"@[0] != "goto:"@[0]);
    assert("select_none"@.subrange(0, 5)[0] == "select_none"@[0]);
    assert("select_none"@[0] != "edit_drive:"@[0]);
    assert("select_none"@.subrange(0, 11)[0] == "select_none"@[0]);
    assert("mount"@[0] != "goto:"@[0]);
    assert("mount"@.subrange(0, 5)[0] == "mount"@[0]);
    assert("search"@[0] != "goto:"@[0]);
    assert("search"@.subrange(0, 5)[0] == "search"@[0]);
    assert("permissions"@[0] != "goto:"@[0]);
    assert("permissions"@.subrange(0, 5)[0] == "permissions"@[0]);
    assert("permissions"@[0] != "edit_drive:"@[0]);
    assert("permissions"@.subrange(0, 11)[0] == "permissions"@[0]);
    assert("hex_read"@[0] != "goto:"@[0]);
    assert("hex_read"@.subrange(0, 5)[0] == "hex_read"@[0]);
}

/// The buttons of row 2 of the default grid read back as their labels say.
proof fn lemma_row_2_reads_back()
    ensures
        named_action("parent"@) == label_action("Parent"@),
        named_action("parent"@) == ButtonAction::Parent,
        named_action("rename"@) == label_action("Rename"@),
        named_action("rename"@) == ButtonAction::Rename,
        named_action("extract"@) == label_action("Extract"@),
        named_action("extract"@) == ButtonAction::Extract,
        named_action("edit"@) == label_action("Edit"@),
        named_action("edit"@) == ButtonAction::Edit,
        !begins_with("parent"@, "goto:"@) && !begins_with("parent"@, "edit_drive:"@),
        !begins_with("rename"@, "goto:"@) && !begins_with("rename"@, "edit_drive:"@),
        !begins_with("extract"@, "goto:"@) && !begins_with("extract"@, "edit_drive:"@),
        !begins_with("edit"@, "goto:"@) && !begins_with("edit"@, "edit_drive:"@),
{
    reveal_strlit("goto:");
    reveal_strlit("edit_drive:");
    reveal_strlit("select_all");
    reveal_strlit("select_none");
    reveal_strlit("parent");
    reveal_strlit("All");
    reveal_strlit("None");
    reveal_strlit("Parent");
    reveal_strlit("root");
    reveal_strlit("copy");
    reveal_strlit("move");
    reveal_strlit("makedir");
    reveal_strlit("mount");
    reveal_strlit("find");
    reveal_strlit("search");
    reveal_strlit("run");
    reveal_strlit("read");
    reveal_strlit("datestamp");
    reveal_strlit("permissions");
    reveal_strlit("edit");
    reveal_strlit("upx");
    reveal_strlit("extract");
    reveal_strlit("hex_read");
    reveal_strlit("rename");
    reveal_strlit("Root");
    reveal_strlit("Copy");
    reveal_strlit("Move");
    reveal_strlit("Rename");
    reveal_strlit("DELETE");
    reveal_strlit("Makedir");
    reveal_strlit("Mount");
    reveal_strlit("Find");
    reveal_strlit("Search");
    reveal_strlit("Run");
    reveal_strlit("Datestamp");
    reveal_strlit("Permissions");
    reveal_strlit("Extract");
    reveal_strlit("Read");
    reveal_strlit("Hex Read");
    reveal_strlit("Edit");
    assert("parent"@.len() != "select_all"@.len());
    assert("parent"@.len() != "select_none"@.len());
    assert("Parent"@.len() != "All"@.len());
    assert("Parent"@.len() != "None"@.len());
    assert("rename"@.len() != "select_all"@.len());
    assert("rename"@.len() != "select_none"@.len());
    assert("rename"@[0] != "parent"@[0]);
    assert("rename"@.len() != "root"@.len());
    assert("rename"@.len() != "copy"@.len());
    assert("rename"@.len() != "move"@.len());
    assert("rename"@.len() != "makedir"@.len());
    assert("rename"@.len() != "mount"@.len());
    assert("rename"@.len() != "find"@.len());
    assert("rename"@[0] != "search"@[0]);
    assert("rename"@.len() != "run"@.len());
    assert("rename"@.len() != "read"@.len());
    assert("rename"@.len() != "datestamp"@.len());
    assert("rename"@.len() != "permissions"@.len());
    assert("rename"@.len() != "edit"@.len());
    assert("rename"@.len() != "upx"@.len());
    assert("rename"@.len() != "extract"@.len());
    assert("rename"@.len() != "hex_read"@.len());
    assert("Rename"@.len() != "All"@.len());
    assert("Rename"@.len() != "None"@.len());
    assert("Rename"@[0] != "Parent"@[0]);
    assert("Rename"@.len() != "Root"@.len());
    assert("Rename"@.len() != "Copy"@.len());
    assert("Rename"@.len() != "Move"@.len());
    assert("extract"@.len() != "select_all"@.len());
    assert("extract"@.len() != "select_none"@.len());
    assert("extract"@.len() != "parent"@.len());
    assert("extract"@.len() != "root"@.len());
    assert("extract"@.len() != "copy"@.len());
    assert("extract"@.len() != "move"@.len());
    assert("extract"@[0] != "makedir"@[0]);
    assert("extract"@.len() != "mount"@.len());
    assert("extract"@.len() != "find"@.len());
    assert("extract"@.len() != "search"@.len());
    assert("extract"@.len() != "run"@.len());
    assert("extract"@.len() != "read"@.len());
    assert("extract"@.len() != "datestamp"@.len());
    assert("extract"@.len() != "permissions"@.len());
    assert("extract"@.len() != "edit"@.len());
    assert("extract"@.len() != "upx"@.len());
    assert("Extract"@.len() != "All"@.len());
    assert("Extract"@.len() != "None"@.len());
    assert("Extract"@.len() != "Parent"@.len());
    assert("Extract"@.len() != "Root"@.len());
    assert("Extract"@.len() != "Copy"@.len());
    assert("Extract"@.len() != "Move"@.len());
    assert("Extract"@.len() != "Rename"@.len());
    assert("Extract"@.len() != "DELETE"@.len());
    assert("Extract"@[0] != "Makedir"@[0]);
    assert("Extract"@.len() != "Mount"@.len());
    assert("Extract"@.len() != "Find"@.len());
    assert("Extract"@.len() != "Search"@.len());
    assert("Extract"@.len() != "Run"@.len());
    assert("Extract"@.len() != "Datestamp"@.len());
    assert("Extract"@.len() != "Permissions"@.len());
    assert("edit"@.len() != "select_all"@.len());
    assert("edit"@.len() != "select_none"@.len());
    assert("edit"@.len() != "parent"@.len());
    assert("edit"@[0] != "root"@[0]);
    assert("edit"@[0] != "copy"@[0]);
    assert("edit"@[0] != "move"@[0]);
    assert("edit"@.len() != "makedir"@.len());
    assert("edit"@.len() != "mount"@.len());
    assert("edit"@[0] != "find"@[0]);
    assert("edit"@.len() != "search"@.len());
    assert("edit"@.len() != "run"@.len());
    assert("edit"@[0] != "read"@[0]);
    assert("edit"@.len() != "datestamp"@.len());
    assert("edit"@.len() != "permissions"@.len());
    assert("Edit"@.len() != "All"@.len());
    assert("Edit"@[0] != "None"@[0]);
    assert("Edit"@.len() != "Parent"@.len());
    assert("Edit"@[0] != "Root"@[0]);
    assert("Edit"@[0] != "Copy"@[0]);
    assert("Edit"@[0] != "Move"@[0]);
    assert("Edit"@.len() != "Rename"@.len());
    assert("Edit"@.len() != "DELETE"@.len());
    assert("Edit"@.len() != "Makedir"@.len());
    assert("Edit"@.len() != "Mount"@.len());
    assert("Edit"@[0] != "Find"@[0]);
    assert("Edit"@.len() != "Search"@.len());
    assert("Edit"@.len() != "Run"@.len());
    assert("Edit"@.len() != "Datestamp"@.len());
    assert("Edit"@.len() != "Permissions"@.len());
    assert("Edit"@.len() != "Extract"@.len());
    assert("Edit"@[0] != "Read"@[0]);
    assert("Edit"@.len() != "Hex Read"@.len());
    assert("parent"@[0] != "goto:"@[0]);
    assert("parent"@.subrange(0, 5)[0] == "parent"@[0]);
    assert("rename"@[0] != "goto:"@[0]);
    assert("rename"@.subrange(0, 5)[0] == "rename"@[0]);
    assert("extract"@[0] != "goto:"@[0]);
    assert("extract"@.subrange(0, 5)[0] == "extract"@[0]);
}

/// The buttons of row 3 of the default grid read back as their labels say.
proof fn lemma_row_3_reads_back()
    ensures
        named_action("root"@) == label_action("Root"@),
        named_action("root"@) == ButtonAction::Root,
        named_action("encrypt"@) == label_action("Encrypt"@),
        named_action("encrypt"@) == ButtonAction::Unknown,
        !begins_with("root"@, "goto:"@) && !begins_with("root"@, "edit_drive:"@),
        !begins_with("encrypt"@, "goto:"@) && !begins_with("encrypt"@, "edit_drive:"@),
{
    reveal_strlit("goto:");
    reveal_strlit("edit_drive:");
    reveal_strlit("select_all");
    reveal_strlit("select_none");
    reveal_strlit("parent");
    reveal_strlit("root");
    reveal_strlit("All");
    reveal_strlit("None");
    reveal_strlit("Parent");
    reveal_strlit("Root");
    reveal_strlit("copy");
    reveal_strlit("move");
    reveal_strlit("makedir");
    reveal_strlit("mount");
    reveal_strlit("find");
    reveal_strlit("search");
    reveal_strlit("run");
    reveal_strlit("read");
    reveal_strlit("datestamp");
    reveal_strlit("permissions");
    reveal_strlit("edit");
    reveal_strlit("upx");
    reveal_strlit("extract");
    reveal_strlit("hex_read");
    reveal_strlit("rename");
    reveal_strlit("delete");
    reveal_strlit("Copy");
    reveal_strlit("Move");
    reveal_strlit("Rename");
    reveal_strlit("DELETE");
    reveal_strlit("Makedir");
    reveal_strlit("Mount");
    reveal_strlit("Find");
    reveal_strlit("Search");
    reveal_strlit("Run");
    reveal_strlit("Datestamp");
    reveal_strlit("Permissions");
    reveal_strlit("Extract");
    reveal_strlit("Read");
    reveal_strlit("Hex Read");
    reveal_strlit("Edit");
    reveal_strlit("encrypt");
    reveal_strlit("Encrypt");
    assert("root"@.len() != "select_all"@.len());
    assert("root"@.len() != "select_none"@.len());
    assert("root"@.len() != "parent"@.len());
    assert("Root"@.len() != "All"@.len());
    assert("Root"@[0] != "None"@[0]);
    assert("Root"@.len() != "Parent"@.len());
    assert("encrypt"@.len() != "select_all"@.len());
    assert("encrypt"@.len() != "select_none"@.len());
    assert("encrypt"@.len() != "parent"@.len());
    assert("encrypt"@.len() != "root"@.len());
    assert("encrypt"@.len() != "copy"@.len());
    assert("encrypt"@.len() != "move"@.len());
    assert("encrypt"@[0] != "makedir"@[0]);
    assert("encrypt"@.len() != "mount"@.len());
    assert("encrypt"@.len() != "find"@.len());
    assert("encrypt"@.len() != "search"@.len());
    assert("encrypt"@.len() != "run"@.len());
    assert("encrypt"@.len() != "read"@.len());
    assert("encrypt"@.len() != "datestamp"@.len());
    assert("encrypt"@.len() != "permissions"@.len());
    assert("encrypt"@.len() != "edit"@.len());
    assert("encrypt"@.len() != "upx"@.len());
    assert("encrypt"@[1] != "extract"@[1]);
    assert("encrypt"@.len() != "hex_read"@.len());
    assert("encrypt"@.len() != "rename"@.len());
    assert("encrypt"@.len() != "delete"@.len());
    assert("Encrypt"@.len() != "All"@.len());
    assert("Encrypt"@.len() != "None"@.len());
    assert("Encrypt"@.len() != "Parent"@.len());
    assert("Encrypt"@.len() != "Root"@.len());
    assert("Encrypt"@.len() != "Copy"@.len());
    assert("Encrypt"@.len() != "Move"@.len());
    assert("Encrypt"@.len() != "Rename"@.len());
    assert("Encrypt"@.len() != "DELETE"@.len());
    assert("Encrypt"@[0] != "Makedir"@[0]);
    assert("Encrypt"@.len() != "Mount"@.len());
    assert("Encrypt"@.len() != "Find"@.len());
    assert("Encrypt"@.len() != "Search"@.len());
    assert("Encrypt"@.len() != "Run"@.len());
    assert("Encrypt"@.len() != "Datestamp"@.len());
    assert("Encrypt"@.len() != "Permissions"@.len());
    assert("Encrypt"@[1] != "Extract"@[1]);
    assert("Encrypt"@.len() != "Read"@.len());
    assert("Encrypt"@.len() != "Hex Read"@.len());
    assert("Encrypt"@.len() != "Edit"@.len());
    assert("encrypt"@[0] != "goto:"@[0]);
    assert("encrypt"@.subrange(0, 5)[0] == "encrypt"@[0]);
}

/// The buttons of row 5 of the default grid read back as their labels say.
proof fn lemma_row_5_reads_back()
    ensures
        named_action("delete"@) == label_action("DELETE"@),
        named_action("delete"@) == ButtonAction::Delete,
        !begins_with("delete"@, "goto:"@) && !begins_with("delete"@, "edit_drive:"@),
{
    reveal_strlit("goto:");
    reveal_strlit("edit_drive:");
    reveal_strlit("select_all");
    reveal_strlit("select_none");
    reveal_strlit("parent");
    reveal_strlit("root");
    reveal_strlit("copy");
    reveal_strlit("move");
    reveal_strlit("makedir");
    reveal_strlit("mount");
    reveal_strlit("find");
    reveal_strlit("search");
    reveal_strlit("run");
    reveal_strlit("read");
    reveal_strlit("datestamp");
    reveal_strlit("permissions");
    reveal_strlit("edit");
    reveal_strlit("upx");
    reveal_strlit("extract");
    reveal_strlit("hex_read");
    reveal_strlit("rename");
    reveal_strlit("delete");
    reveal_strlit("All");
    reveal_strlit("None");
    reveal_strlit("Parent");
    reveal_strlit("Root");
    reveal_strlit("Copy");
    reveal_strlit("Move");
    reveal_strlit("Rename");
    reveal_strlit("DELETE");
    assert("delete"@.len() != "select_all"@.len());
    assert("delete"@.len() != "select_none"@.len());
    assert("delete"@[0] != "parent"@[0]);
    assert("delete"@.len() != "root"@.len());
    assert("delete"@.len() != "copy"@.len());
    assert("delete"@.len() != "move"@.len());
    assert("delete"@.len() != "makedir"@.len());
    assert("delete"@.len() != "mount"@.len());
    assert("delete"@.len() != "find"@.len());
    assert("delete"@[0] != "search"@[0]);
    assert("delete"@.len() != "run"@.len());
    assert("delete"@.len() != "read"@.len());
    assert("delete"@.len() != "datestamp"@.len());
    assert("delete"@.len() != "permissions"@.len());
    assert("delete"@.len() != "edit"@.len());
    assert("delete"@.len() != "upx"@.len());
    assert("delete"@.len() != "extract"@.len());
    assert("delete"@.len() != "hex_read"@.len());
    assert("delete"@[0] != "rename"@[0]);
    assert("DELETE"@.len() != "All"@.len());
    assert("DELETE"@.len() != "None"@.len());
    assert("DELETE"@[0] != "Parent"@[0]);
    assert("DELETE"@.len() != "Root"@.len());
    assert("DELETE"@.len() != "Copy"@.len());
    assert("DELETE"@.len() != "Move"@.len());
    assert("DELETE"@[0] != "Rename"@[0]);
    assert("delete"@[0] != "goto:"@[0]);
    assert("delete"@.subrange(0, 5)[0] == "delete"@[0]);
}

/// The action name of the "Upx" command reads back as it.
proof fn lemma_upx_reads_back()
    ensures
        named_action("upx"@) == ButtonAction::Upx,
{
    reveal_strlit("select_all");
    reveal_strlit("select_none");
    reveal_strlit("parent");
    reveal_strlit("root");
    reveal_strlit("copy");
    reveal_strlit("move");
    reveal_strlit("makedir");
    reveal_strlit("mount");
    reveal_strlit("find");
    reveal_strlit("search");
    reveal_strlit("run");
    reveal_strlit("read");
    reveal_strlit("datestamp");
    reveal_strlit("permissions");
    reveal_strlit("edit");
    reveal_strlit("upx");
    assert("upx"@.len() != "select_all"@.len());
    assert("upx"@.len() != "select_none"@.len());
    assert("upx"@.len() != "parent"@.len());
    assert("upx"@.len() != "root"@.len());
    assert("upx"@.len() != "copy"@.len());
    assert("upx"@.len() != "move"@.len());
    assert("upx"@.len() != "makedir"@.len());
    assert("upx"@.len() != "mount"@.len());
    assert("upx"@.len() != "find"@.len());
    assert("upx"@.len() != "search"@.len());
    assert("upx"@[0] != "run"@[0]);
    assert("upx"@.len() != "read"@.len());
    assert("upx"@.len() != "datestamp"@.len());
    assert("upx"@.len() != "permissions"@.len());
    assert("upx"@.len() != "edit"@.len());
}

/// The action text that names the command `a`, for the commands that have a
/// name (not `goto:`, `edit_drive:` nor an unknown one).
pub open spec fn action_name(a: ButtonAction) -> Seq<char> {
    match a {
        ButtonAction::SelectAll => "select_all"@,
        ButtonAction::SelectNone => "select_none"@,
        ButtonAction::Parent => "parent"@,
        ButtonAction::Root => "root"@,
        ButtonAction::Copy => "copy"@,
        ButtonAction::Move => "move"@,
        ButtonAction::MakeDir => "makedir"@,
        ButtonAction::Mount => "mount"@,
        ButtonAction::Find => "find"@,
        ButtonAction::Search => "search"@,
        ButtonAction::Run => "run"@,
        ButtonAction::Read => "read"@,
        ButtonAction::Datestamp => "datestamp"@,
        ButtonAction::Permissions => "permissions"@,
        ButtonAction::Edit => "edit"@,
        ButtonAction::Upx => "upx"@,
        ButtonAction::Extract => "extract"@,
        ButtonAction::HexRead => "hex_read"@,
        ButtonAction::Rename => "rename"@,
        ButtonAction::Delete => "delete"@,
        _ => Seq::empty(),
    }
}

/// Each named command is read back from its name, and distinct commands
/// have distinct names: "move" moves, "copy" copies, "upx" compresses.
pub proof fn law_action_names_read_back(a: ButtonAction)
    requires
        !(a is Goto || a is EditDrive || a is Unknown),
    ensures
        named_action(action_name(a)) == a,
        !begins_with(action_name(a), "goto:"@) && !begins_with(action_name(a), "edit_drive:"@),
{
    lemma_row_0_reads_back();
    lemma_row_1_reads_back();
    lemma_row_2_reads_back();
    lemma_row_3_reads_back();
    lemma_row_5_reads_back();
    lemma_upx_reads_back();
    if a is Upx {
        reveal_strlit("goto:");
        reveal_strlit("edit_drive:");
        reveal_strlit("upx");
    }
}

/// Every button of the default grid does what its label says: its action
/// text is neither a `goto:` nor an `edit_drive:` one, and reads back as the
/// action the label names ("Move" moves, "Copy" copies, "DELETE" deletes,
/// ...; "Encrypt" does nothing yet).
pub proof fn law_default_buttons_do_what_they_say(r: int, c: int, with_mount: bool)
    ensures
        default_cell(r, c, with_mount) matches Some(b) ==> (b.2 matches Some(action) && !begins_with(action, "goto:"@)
            && !begins_with(action, "edit_drive:"@) && named_action(action) == label_action(b.0)),
{
    lemma_row_0_reads_back();
    lemma_row_1_reads_back();
    lemma_row_2_reads_back();
    lemma_row_3_reads_back();
    lemma_row_5_reads_back();
}

/// The action a click on a shortcut to `path` sends (see
/// `button_bar::goto_action`) reads back as showing `path`.
pub proof fn law_goto_action_reads_back(path: Seq<char>)
    ensures
        begins_with("goto:"@ + path, "goto:"@),
        ("goto:"@ + path).skip("goto:"@.len() as int) == path,
{
    assert(("goto:"@ + path).take("goto:"@.len() as int) =~= "goto:"@);
    assert(("goto:"@ + path).skip("goto:"@.len() as int) =~= path);
}

/// The action a right click on the shortcut of row `row_idx` sends (see
/// `button_bar::edit_drive_action`) reads back as editing that row.
pub proof fn law_edit_drive_action_reads_back(row_idx: usize)
    ensures
        !begins_with("edit_drive:"@ + decimal(row_idx as nat), "goto:"@),
        begins_with("edit_drive:"@ + decimal(row_idx as nat), "edit_drive:"@),
        parsed_usize(("edit_drive:"@ + decimal(row_idx as nat)).skip("edit_drive:"@.len() as int))
            == Some(row_idx as nat),
{
    reveal_strlit("goto:");
    reveal_strlit("edit_drive:");
    let a = "edit_drive:"@ + decimal(row_idx as nat);
    assert(a.take(11) =~= "edit_drive:"@);
    assert(a.skip(11) =~= decimal(row_idx as nat));
    assert(a.take(5)[0] != "goto:"@[0]);
    law_decimal_parses_back(row_idx);
}

} // verus!

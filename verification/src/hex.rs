//! Hex dumps of byte slices.
use vstd::prelude::*;
use vstd::string::StringExecFns;

verus! {

/// The number of bytes that one row of a dump shows.
pub const COLUMNS: usize = 16;

/// `String::push`: the character is appended.
pub assume_specification[ String::push ](string: &mut String, ch: char)
    ensures
        final(string)@ == old(string)@.push(ch),
;

/// The lower-case hexadecimal digit of `n`, which is below 16.
pub open spec fn digit(n: int) -> char {
    if n < 10 {
        ('0' as int + n) as char
    } else {
        ('a' as int + n - 10) as char
    }
}

/// `n` in hexadecimal, without leading zeros.
pub open spec fn digits(n: nat) -> Seq<char>
    decreases n,
{
    if n < 16 {
        seq![digit(n as int)]
    } else {
        digits(n / 16).push(digit(n as int % 16))
    }
}

/// `count` times the character `ch`.
pub open spec fn repeat(ch: char, count: int) -> Seq<char> {
    Seq::new(if count < 0 { 0 } else { count as nat }, |i: int| ch)
}

/// `n` in hexadecimal, with leading zeros up to four digits.
pub open spec fn offset_text(n: nat) -> Seq<char> {
    repeat('0', 4 - digits(n).len()) + digits(n)
}

/// What a row starts with: the prefix and the offset of its first byte.
pub open spec fn heading(prefix: Seq<char>, offset: nat) -> Seq<char> {
    prefix + offset_text(offset) + seq![':', ' ']
}

/// Each byte as two digits and a space.
pub open spec fn columns(bytes: Seq<u8>) -> Seq<char>
    decreases bytes.len(),
{
    if bytes.len() == 0 {
        seq![]
    } else {
        columns(bytes.drop_last()) + seq![
            digit(bytes.last() as int / 16),
            digit(bytes.last() as int % 16),
            ' ',
        ]
    }
}

/// The character that stands for a byte: its own, if it is printable ASCII, or a dot.
pub open spec fn glyph(byte: u8) -> char {
    if 0x20 <= byte <= 0x7e {
        byte as char
    } else {
        '.'
    }
}

/// The bytes of the row that starts at `offset`.
pub open spec fn row_bytes(buffer: Seq<u8>, offset: int) -> Seq<u8> {
    buffer.subrange(
        offset,
        if offset + COLUMNS <= buffer.len() {
            offset + COLUMNS
        } else {
            buffer.len() as int
        },
    )
}

/// The row that starts at `offset`: its heading, its bytes in hexadecimal, as many spaces as the
/// missing bytes of a short row would take, and its bytes as characters.
pub open spec fn row(prefix: Seq<char>, buffer: Seq<u8>, offset: nat) -> Seq<char> {
    let bytes = row_bytes(buffer, offset as int);
    heading(prefix, offset) + columns(bytes) + repeat(' ', 3 * (COLUMNS - bytes.len()))
        + bytes.map_values(|byte: u8| glyph(byte))
}

/// The first `count` rows, a line each, without a line break after the last.
pub open spec fn rows(prefix: Seq<char>, buffer: Seq<u8>, count: nat) -> Seq<char>
    decreases count,
{
    if count == 0 {
        seq![]
    } else if count == 1 {
        row(prefix, buffer, 0)
    } else {
        rows(prefix, buffer, (count - 1) as nat).push('\n') + row(
            prefix,
            buffer,
            (COLUMNS * (count - 1)) as nat,
        )
    }
}

/// The number of rows that `len` bytes take.
pub open spec fn row_count(len: nat) -> nat {
    (len + COLUMNS - 1) as nat / COLUMNS as nat
}

/// The dump of `buffer`. If there is nothing to show, that is at least a heading.
pub open spec fn dump(prefix: Seq<char>, buffer: Seq<u8>) -> Seq<char> {
    if buffer.len() == 0 {
        heading(prefix, 0)
    } else {
        rows(prefix, buffer, row_count(buffer.len()))
    }
}

proof fn columns_len(bytes: Seq<u8>)
    ensures
        columns(bytes).len() == 3 * bytes.len(),
    decreases bytes.len(),
{
    if bytes.len() > 0 {
        columns_len(bytes.drop_last());
    }
}

proof fn columns_show_bytes(a: Seq<u8>, b: Seq<u8>)
    requires
        a.len() == b.len(),
        columns(a) == columns(b),
    ensures
        a == b,
    decreases a.len(),
{
    if a.len() > 0 {
        columns_len(a.drop_last());
        columns_len(b.drop_last());
        let n = 3 * (a.len() - 1);
        assert(columns(a).take(n) =~= columns(a.drop_last()));
        assert(columns(b).take(n) =~= columns(b.drop_last()));
        assert(columns(a)[n] == digit(a.last() as int / 16));
        assert(columns(b)[n] == digit(b.last() as int / 16));
        assert(columns(a)[n + 1] == digit(a.last() as int % 16));
        assert(columns(b)[n + 1] == digit(b.last() as int % 16));
        assert(a.last() == b.last());
        columns_show_bytes(a.drop_last(), b.drop_last());
        assert(a =~= a.drop_last().push(a.last()));
        assert(b =~= b.drop_last().push(b.last()));
    }
}

proof fn row_len(prefix: Seq<char>, buffer: Seq<u8>, offset: nat)
    requires
        offset < buffer.len(),
    ensures
        row(prefix, buffer, offset).len() == heading(prefix, offset).len() + 3 * COLUMNS
            + row_bytes(buffer, offset as int).len(),
{
    columns_len(row_bytes(buffer, offset as int));
}

proof fn row_shows_bytes(prefix: Seq<char>, a: Seq<u8>, b: Seq<u8>, offset: nat)
    requires
        a.len() == b.len(),
        offset < a.len(),
        row(prefix, a, offset) == row(prefix, b, offset),
    ensures
        row_bytes(a, offset as int) == row_bytes(b, offset as int),
{
    let bytes_a = row_bytes(a, offset as int);
    let bytes_b = row_bytes(b, offset as int);
    columns_len(bytes_a);
    columns_len(bytes_b);
    let from = heading(prefix, offset).len() as int;
    let to = from + 3 * bytes_a.len();
    assert(row(prefix, a, offset).subrange(from, to) =~= columns(bytes_a));
    assert(row(prefix, b, offset).subrange(from, to) =~= columns(bytes_b));
    columns_show_bytes(bytes_a, bytes_b);
}

proof fn longer_rows(prefix: Seq<char>, a: Seq<u8>, b: Seq<u8>, count: nat)
    requires
        a.len() <= b.len(),
        count <= row_count(a.len()),
    ensures
        rows(prefix, a, count).len() <= rows(prefix, b, count).len(),
        count == row_count(a.len()) && row_count(a.len()) == row_count(b.len()) && 0 < a.len()
            < b.len() ==> rows(prefix, a, count).len() < rows(prefix, b, count).len(),
    decreases count,
{
    if count > 0 {
        longer_rows(prefix, a, b, (count - 1) as nat);
        row_len(prefix, a, (COLUMNS * (count - 1)) as nat);
        row_len(prefix, b, (COLUMNS * (count - 1)) as nat);
    }
}

proof fn more_rows(prefix: Seq<char>, buffer: Seq<u8>, few: nat, many: nat)
    requires
        few <= many,
    ensures
        rows(prefix, buffer, few).len() <= rows(prefix, buffer, many).len(),
        0 < few < many ==> rows(prefix, buffer, few).len() < rows(prefix, buffer, many).len(),
    decreases many,
{
    if few < many {
        more_rows(prefix, buffer, few, (many - 1) as nat);
    }
}

proof fn longer_dump(prefix: Seq<char>, a: Seq<u8>, b: Seq<u8>)
    requires
        a.len() < b.len(),
    ensures
        dump(prefix, a).len() < dump(prefix, b).len(),
{
    if a.len() == 0 {
        row_len(prefix, b, 0);
        more_rows(prefix, b, 1, row_count(b.len()));
    } else {
        longer_rows(prefix, a, b, row_count(a.len()));
        more_rows(prefix, b, row_count(a.len()), row_count(b.len()));
    }
}

proof fn rows_show_bytes(prefix: Seq<char>, a: Seq<u8>, b: Seq<u8>, count: nat)
    requires
        a.len() == b.len(),
        count <= row_count(a.len()),
        rows(prefix, a, count) == rows(prefix, b, count),
    ensures
        forall|i: int| 0 <= i < COLUMNS * count && i < a.len() ==> a[i] == b[i],
    decreases count,
{
    if count > 0 {
        let offset = (COLUMNS * (count - 1)) as nat;
        longer_rows(prefix, a, b, (count - 1) as nat);
        longer_rows(prefix, b, a, (count - 1) as nat);
        row_len(prefix, a, offset);
        row_len(prefix, b, offset);
        let text = rows(prefix, a, count);
        let n = rows(prefix, a, (count - 1) as nat).len() as int;
        let from = text.len() - row(prefix, a, offset).len();
        assert(text.take(n) =~= rows(prefix, a, (count - 1) as nat));
        assert(text.take(n) =~= rows(prefix, b, (count - 1) as nat));
        assert(text.skip(from) =~= row(prefix, a, offset));
        assert(text.skip(from) =~= row(prefix, b, offset));
        rows_show_bytes(prefix, a, b, (count - 1) as nat);
        row_shows_bytes(prefix, a, b, offset);
        assert forall|i: int| 0 <= i < COLUMNS * count && i < a.len() implies a[i] == b[i] by {
            if i >= offset {
                assert(row_bytes(a, offset as int)[i - offset] == a[i]);
                assert(row_bytes(b, offset as int)[i - offset] == b[i]);
            }
        }
    }
}

/// A dump shows every byte of its buffer: no two buffers have the same dump.
pub proof fn dump_shows_buffer(prefix: Seq<char>, a: Seq<u8>, b: Seq<u8>)
    requires
        dump(prefix, a) == dump(prefix, b),
    ensures
        a == b,
{
    if a.len() < b.len() {
        longer_dump(prefix, a, b);
    } else if b.len() < a.len() {
        longer_dump(prefix, b, a);
    } else {
        if a.len() > 0 {
            rows_show_bytes(prefix, a, b, row_count(a.len()));
        }
        assert(a =~= b);
    }
}

/// The hexadecimal digit of `n`.
fn hex_digit(n: u8) -> (r: char)
    requires
        n < 16,
    ensures
        r == digit(n as int),
{
    if n < 10 {
        (48 + n) as char
    } else {
        (87 + n) as char
    }
}

/// Appends `n` in hexadecimal.
fn push_digits(f: &mut String, n: usize)
    ensures
        final(f)@ == old(f)@ + digits(n as nat),
    decreases n,
{
    if n >= 16 {
        push_digits(f, n / 16);
    }
    f.push(hex_digit((n % 16) as u8));
}

/// The number of hexadecimal digits of `n`.
fn digit_count(n: usize) -> (r: usize)
    ensures
        r == digits(n as nat).len(),
        r <= n + 1,
    decreases n,
{
    if n < 16 {
        1
    } else {
        1 + digit_count(n / 16)
    }
}

/// Appends `ch`, `count` times.
fn push_repeated(f: &mut String, ch: char, count: usize)
    ensures
        final(f)@ == old(f)@ + repeat(ch, count as int),
{
    let mut i: usize = 0;
    while i < count
        invariant
            i <= count,
            f@ == old(f)@ + repeat(ch, i as int),
        decreases count - i,
    {
        f.push(ch);
        i += 1;
    }
}

/// Appends the heading of the row at `offset`.
fn push_heading(f: &mut String, prefix: &str, offset: usize)
    ensures
        final(f)@ == old(f)@ + heading(prefix@, offset as nat),
{
    f.append(prefix);
    let len: usize = digit_count(offset);
    if len < 4 {
        push_repeated(f, '0', 4 - len);
    }
    push_digits(f, offset);
    f.push(':');
    f.push(' ');
    assert(f@ =~= old(f)@ + heading(prefix@, offset as nat));
}

/// Appends `bytes`, each as two digits and a space.
fn push_columns(f: &mut String, bytes: &[u8])
    ensures
        final(f)@ == old(f)@ + columns(bytes@),
{
    let mut i: usize = 0;
    while i < bytes.len()
        invariant
            i <= bytes@.len(),
            f@ == old(f)@ + columns(bytes@.take(i as int)),
        decreases bytes@.len() - i,
    {
        let byte: u8 = bytes[i];
        f.push(hex_digit(byte / 16));
        f.push(hex_digit(byte % 16));
        f.push(' ');
        proof {
            assert(bytes@.take(i + 1).drop_last() == bytes@.take(i as int));
            assert(f@ =~= old(f)@ + columns(bytes@.take(i + 1)));
        }
        i += 1;
    }
    assert(bytes@.take(i as int) == bytes@);
}

/// Appends the characters that stand for `bytes`.
fn push_glyphs(f: &mut String, bytes: &[u8])
    ensures
        final(f)@ == old(f)@ + bytes@.map_values(|byte: u8| glyph(byte)),
{
    let mut i: usize = 0;
    while i < bytes.len()
        invariant
            i <= bytes@.len(),
            f@ == old(f)@ + bytes@.take(i as int).map_values(|byte: u8| glyph(byte)),
        decreases bytes@.len() - i,
    {
        let byte: u8 = bytes[i];
        f.push(
            if 0x20 <= byte && byte <= 0x7e {
                byte as char
            } else {
                '.'
            },
        );
        i += 1;
    }
    assert(bytes@.take(i as int) == bytes@);
}

/// Appends a hex dump of `buffer`, each row after `prefix`.
pub fn hexdump(f: &mut String, prefix: &str, buffer: &[u8])
    ensures
        final(f)@ == old(f)@ + dump(prefix@, buffer@),
{
    if buffer.len() == 0 {
        // For a zero-length buffer, at least print an offset instead of nothing.
        push_heading(f, prefix, 0);
        return ;
    }
    let mut offset: usize = 0;
    let ghost mut count: nat = 0;
    loop
        invariant_except_break
            offset == COLUMNS * count,
            offset < buffer@.len(),
            f@ == old(f)@ + if count == 0 {
                seq![]
            } else {
                rows(prefix@, buffer@, count).push('\n')
            },
        ensures
            count == row_count(buffer@.len()),
            f@ == old(f)@ + rows(prefix@, buffer@, count),
        decreases buffer@.len() - offset,
    {
        push_heading(f, prefix, offset);

        // Determine row byte range
        let remaining: usize = buffer.len() - offset;
        let row_size: usize = if remaining < COLUMNS {
            remaining
        } else {
            COLUMNS
        };
        let row = &buffer[offset..offset + row_size];

        // Print hex representation
        push_columns(f, row);
        push_repeated(f, ' ', 3 * (COLUMNS - row_size));

        // Print ASCII representation
        push_glyphs(f, row);

        proof {
            assert(row@ == row_bytes(buffer@, offset as int));
            count = count + 1;
            assert(f@ =~= old(f)@ + rows(prefix@, buffer@, count));
        }
        if remaining <= COLUMNS {
            break ;
        }
        offset += COLUMNS;
        f.push('\n');
    }
}

/// A byte slice wrapped in `Hex` is printable as a hex dump.
pub struct Hex<'a>(pub &'a [u8]);

impl<'a> Hex<'a> {
    /// The hex dump of the wrapped slice.
    pub fn to_string(&self) -> (r: String)
        ensures
            r@ == dump(seq![], self.0@),
    {
        let mut f = String::new();
        hexdump(&mut f, "", self.0);
        proof {
            reveal_strlit("");
            assert(""@ == Seq::<char>::empty());
        }
        f
    }
}

/// Wraps the provided byte slice in a `Hex`, to allow it to be printable as a hex dump.
pub fn hex(bytes: &[u8]) -> (r: Hex<'_>)
    ensures
        r.0@ == bytes@,
{
    Hex(bytes)
}

/// What a lower-case hexadecimal digit stands for, or -1 for another character.
pub open spec fn digit_value(ch: char) -> int {
    if '0' <= ch <= '9' {
        ch as int - '0' as int
    } else if 'a' <= ch <= 'f' {
        ch as int - 'a' as int + 10
    } else {
        -1
    }
}

/// What a hexadecimal number stands for.
pub open spec fn number_value(text: Seq<char>) -> int
    decreases text.len(),
{
    if text.len() == 0 {
        0
    } else {
        16 * number_value(text.drop_last()) + digit_value(text.last())
    }
}

/// Whether `text` is the hexadecimal number `n`, in lower case and with at least four digits, and
/// with no more zeros before it than that takes.
pub open spec fn is_number(text: Seq<char>, n: int) -> bool {
    &&& text.len() >= 4
    &&& forall|i: int| 0 <= i < text.len() ==> 0 <= #[trigger] digit_value(text[i])
    &&& text.len() > 4 ==> text[0] != '0'
    &&& number_value(text) == n
}

/// Whether `line` is the line of a dump for `bytes`, at most sixteen, which start at `offset`: the
/// prefix, the offset in `width` digits, a colon and a space; then sixteen columns, of which each
/// has a byte as two digits and a space, or three spaces; then a character for each byte.
pub open spec fn is_line(
    line: Seq<char>,
    prefix: Seq<char>,
    bytes: Seq<u8>,
    offset: int,
    width: int,
) -> bool {
    let start = prefix.len() + width + 2;
    &&& width >= 4
    &&& line.len() == start + 48 + bytes.len()
    &&& line.take(prefix.len() as int) == prefix
    &&& is_number(line.subrange(prefix.len() as int, prefix.len() + width), offset)
    &&& line[prefix.len() + width] == ':'
    &&& line[prefix.len() + width + 1] == ' '
    &&& forall|j: int| 0 <= j < bytes.len() ==> #[trigger] is_column(line, start + 3 * j, bytes[j])
    &&& forall|i: int| start + 3 * bytes.len() <= i < start + 48 ==> #[trigger] line[i] == ' '
    &&& forall|j: int|
        0 <= j < bytes.len() ==> #[trigger] is_character(line[start + 48 + j], bytes[j])
}

/// Whether the two digits of `byte`, and a space, stand at `at`.
pub open spec fn is_column(line: Seq<char>, at: int, byte: u8) -> bool {
    &&& 0 <= digit_value(line[at])
    &&& 0 <= digit_value(line[at + 1])
    &&& 16 * digit_value(line[at]) + digit_value(line[at + 1]) == byte
    &&& line[at + 2] == ' '
}

/// Whether `ch` is the character that `byte` is in ASCII, or a dot if that is not printable.
pub open spec fn is_character(ch: char, byte: u8) -> bool {
    if 0x20 <= byte <= 0x7e {
        ch as int == byte
    } else {
        ch == '.'
    }
}

/// The lines, with a line break between each two.
pub open spec fn joined(lines: Seq<Seq<char>>) -> Seq<char>
    decreases lines.len(),
{
    if lines.len() == 0 {
        seq![]
    } else if lines.len() == 1 {
        lines[0]
    } else {
        joined(lines.drop_last()).push('\n') + lines.last()
    }
}

/// Whether `lines` are the lines of a dump of `buffer`: sixteen bytes each, but for the last, each
/// byte once and in order.
pub open spec fn are_lines(lines: Seq<Seq<char>>, prefix: Seq<char>, buffer: Seq<u8>) -> bool {
    &&& lines.len() == (buffer.len() + 15) / 16
    &&& forall|k: int| 0 <= k < lines.len() ==> #[trigger] shows_bytes(lines[k], prefix, buffer, k)
}

/// Whether `line` is the line at `k` of a dump of `buffer`.
pub open spec fn shows_bytes(line: Seq<char>, prefix: Seq<char>, buffer: Seq<u8>, k: int) -> bool {
    exists|width: int| #[trigger] shows_bytes_after(line, prefix, buffer, k, width)
}

/// Whether `line` is the line at `k` of a dump of `buffer`, with an offset of `width` digits.
pub open spec fn shows_bytes_after(
    line: Seq<char>,
    prefix: Seq<char>,
    buffer: Seq<u8>,
    k: int,
    width: int,
) -> bool {
    let end = if 16 * k + 16 <= buffer.len() {
        16 * k + 16
    } else {
        buffer.len() as int
    };
    is_line(line, prefix, buffer.subrange(16 * k, end), 16 * k, width)
}

proof fn digit_stands_for(n: int)
    requires
        0 <= n < 16,
    ensures
        digit_value(digit(n)) == n,
        digit(n) == '0' <==> n == 0,
{
}

proof fn digits_stand_for(n: nat)
    ensures
        number_value(digits(n)) == n,
        digits(n).len() > 0,
        forall|i: int| 0 <= i < digits(n).len() ==> 0 <= #[trigger] digit_value(digits(n)[i]),
        n > 0 ==> digits(n)[0] != '0',
    decreases n,
{
    if n < 16 {
        digit_stands_for(n as int);
        reveal_with_fuel(number_value, 2);
        assert(digits(n).drop_last() =~= seq![]);
    } else {
        digits_stand_for(n / 16);
        digit_stands_for(n as int % 16);
        assert(digits(n).drop_last() =~= digits(n / 16));
        assert forall|i: int| 0 <= i < digits(n).len() implies 0 <= #[trigger] digit_value(
            digits(n)[i],
        ) by {
            if i < digits(n / 16).len() {
                assert(digits(n)[i] == digits(n / 16)[i]);
            }
        }
    }
}

proof fn zeros_add_nothing(count: int, text: Seq<char>)
    ensures
        number_value(repeat('0', count) + text) == number_value(text),
    decreases text.len(), count,
{
    let all = repeat('0', count) + text;
    if text.len() > 0 {
        zeros_add_nothing(count, text.drop_last());
        assert(all.drop_last() =~= repeat('0', count) + text.drop_last());
        assert(all.last() == text.last());
    } else if count > 0 {
        zeros_add_nothing(count - 1, text);
        assert(all.drop_last() =~= repeat('0', count - 1) + text);
        assert(all.last() == '0');
    } else {
        assert(all =~= text);
    }
}

proof fn offset_is_number(n: nat)
    ensures
        is_number(offset_text(n), n as int),
{
    digits_stand_for(n);
    let zeros = repeat('0', 4 - digits(n).len());
    zeros_add_nothing(4 - digits(n).len(), digits(n));
    assert forall|i: int| 0 <= i < offset_text(n).len() implies 0 <= #[trigger] digit_value(
        offset_text(n)[i],
    ) by {
        if i >= zeros.len() {
            assert(offset_text(n)[i] == digits(n)[i - zeros.len()]);
        }
    }
    if offset_text(n).len() > 4 {
        assert(offset_text(n)[0] == digits(n)[0]);
        if n == 0 {
            assert(digits(n).len() == 1);
        }
    }
}

proof fn columns_are_columns(bytes: Seq<u8>, j: int)
    requires
        0 <= j < bytes.len(),
    ensures
        is_column(columns(bytes), 3 * j, bytes[j]),
    decreases bytes.len(),
{
    let rest = bytes.drop_last();
    columns_len(rest);
    if j < rest.len() {
        columns_are_columns(rest, j);
        assert(columns(bytes)[3 * j] == columns(rest)[3 * j]);
        assert(columns(bytes)[3 * j + 1] == columns(rest)[3 * j + 1]);
        assert(columns(bytes)[3 * j + 2] == columns(rest)[3 * j + 2]);
    } else {
        digit_stands_for(bytes.last() as int / 16);
        digit_stands_for(bytes.last() as int % 16);
        assert(columns(bytes)[3 * j] == digit(bytes.last() as int / 16));
        assert(columns(bytes)[3 * j + 1] == digit(bytes.last() as int % 16));
    }
}

proof fn row_is_line(prefix: Seq<char>, buffer: Seq<u8>, offset: nat)
    requires
        offset < buffer.len(),
    ensures
        is_line(
            row(prefix, buffer, offset),
            prefix,
            row_bytes(buffer, offset as int),
            offset as int,
            offset_text(offset).len() as int,
        ),
{
    let bytes = row_bytes(buffer, offset as int);
    let line = row(prefix, buffer, offset);
    let width = offset_text(offset).len() as int;
    let start = prefix.len() + width + 2;
    columns_len(bytes);
    row_len(prefix, buffer, offset);
    offset_is_number(offset);
    assert(line.take(prefix.len() as int) =~= prefix);
    assert(line.subrange(prefix.len() as int, prefix.len() + width) =~= offset_text(offset));
    assert forall|j: int| 0 <= j < bytes.len() implies #[trigger] is_column(
        line,
        start + 3 * j,
        bytes[j],
    ) by {
        columns_are_columns(bytes, j);
        assert(line[start + 3 * j] == columns(bytes)[3 * j]);
        assert(line[start + 3 * j + 1] == columns(bytes)[3 * j + 1]);
        assert(line[start + 3 * j + 2] == columns(bytes)[3 * j + 2]);
    }
    assert forall|j: int| 0 <= j < bytes.len() implies #[trigger] is_character(
        line[start + 48 + j],
        bytes[j],
    ) by {
        assert(line[start + 48 + j] == glyph(bytes[j]));
    }
}

proof fn row_shows_its_bytes(prefix: Seq<char>, buffer: Seq<u8>, k: int)
    requires
        0 <= k < row_count(buffer.len()),
    ensures
        shows_bytes(row(prefix, buffer, (16 * k) as nat), prefix, buffer, k),
{
    let offset = (16 * k) as nat;
    assert(offset < buffer.len());
    row_is_line(prefix, buffer, offset);
    assert(shows_bytes_after(
        row(prefix, buffer, offset),
        prefix,
        buffer,
        k,
        offset_text(offset).len() as int,
    ));
}

proof fn rows_are_joined(prefix: Seq<char>, buffer: Seq<u8>, count: nat)
    ensures
        joined(Seq::new(count, |k: int| row(prefix, buffer, (16 * k) as nat))) == rows(
            prefix,
            buffer,
            count,
        ),
    decreases count,
{
    let lines = Seq::new(count, |k: int| row(prefix, buffer, (16 * k) as nat));
    if count > 1 {
        rows_are_joined(prefix, buffer, (count - 1) as nat);
        assert(lines.drop_last() =~= Seq::new(
            (count - 1) as nat,
            |k: int| row(prefix, buffer, (16 * k) as nat),
        ));
    }
}

proof fn dump_lines(prefix: Seq<char>, buffer: Seq<u8>) -> (lines: Seq<Seq<char>>)
    requires
        buffer.len() > 0,
    ensures
        are_lines(lines, prefix, buffer),
        dump(prefix, buffer) == joined(lines),
{
    let count = row_count(buffer.len());
    let lines = Seq::new(count, |k: int| row(prefix, buffer, (16 * k) as nat));
    rows_are_joined(prefix, buffer, count);
    assert forall|k: int| 0 <= k < lines.len() implies #[trigger] shows_bytes(
        lines[k],
        prefix,
        buffer,
        k,
    ) by {
        row_shows_its_bytes(prefix, buffer, k);
    }
    lines
}

proof fn empty_dump(prefix: Seq<char>)
    ensures
        dump(prefix, seq![]) == prefix + seq!['0', '0', '0', '0', ':', ' '],
{
    digit_stands_for(0);
    assert(offset_text(0) =~= seq!['0', '0', '0', '0']);
    assert(heading(prefix, 0) =~= prefix + seq!['0', '0', '0', '0', ':', ' ']);
}

/// A hex dump of a buffer is its lines, joined, after what was there before. Each line shows
/// sixteen bytes, but for the last, after the prefix and the offset of the first of them: as
/// hexadecimal digits and as characters. An empty buffer has the heading `0000: ` alone.
pub proof fn hexdump_shows_lines(f: &mut String, prefix: &str, buffer: &[u8], r: ())
    requires
        call_ensures(hexdump, (f, prefix, buffer), r),
    ensures
        buffer@.len() == 0 ==> final(f)@ == old(f)@ + (prefix@
            + seq!['0', '0', '0', '0', ':', ' ']),
        buffer@.len() > 0 ==> exists|lines: Seq<Seq<char>>| #[trigger]
            are_lines(lines, prefix@, buffer@) && final(f)@ == old(f)@ + joined(lines),
{
    if buffer@.len() == 0 {
        empty_dump(prefix@);
        assert(buffer@ == Seq::<u8>::empty());
    } else {
        let lines = dump_lines(prefix@, buffer@);
    }
}

/// What is printed of a wrapped slice is its hex dump without a prefix.
pub proof fn hex_prints_dump(bytes: &[u8], wrapped: Hex<'_>, r: String)
    requires
        call_ensures(hex, (bytes,), wrapped),
        call_ensures(Hex::to_string, (&wrapped,), r),
    ensures
        bytes@.len() == 0 ==> r@ == seq!['0', '0', '0', '0', ':', ' '],
        bytes@.len() > 0 ==> exists|lines: Seq<Seq<char>>| #[trigger]
            are_lines(lines, seq![], bytes@) && r@ == joined(lines),
{
    if bytes@.len() == 0 {
        empty_dump(seq![]);
        assert(bytes@ == Seq::<u8>::empty());
        assert(Seq::<char>::empty() + seq!['0', '0', '0', '0', ':', ' '] =~= seq![
            '0',
            '0',
            '0',
            '0',
            ':',
            ' ',
        ]);
    } else {
        let lines = dump_lines(seq![], bytes@);
    }
}

} // verus!

//! System call tracing: calls are written, one text line each, into a
//! bounded buffer that a reader drains.
//!
//! A filter written as `<proc>[:<syscall>,<syscall>,...]` restricts what is
//! recorded: to tasks whose name contains `<proc>` (all tasks when it is
//! empty), and to calls whose lower-cased name begins with one of the listed
//! names (all calls when none is listed). The special filter `--clear`
//! empties the buffer.
//!
//! Once a line would not fit, the buffer stops taking entries: it keeps the
//! earliest calls, ends with a note that it is full when the note still
//! fits, and stays full until it is drained or cleared.
use vstd::prelude::*;
use vstd::string::StrSliceExecFns;
use vstd::string::StringExecFns;
use vstd::string::StringSliceAdditionalSpecFns;

verus! {

/// Capacity of the trace buffer in bytes.
pub const MAX_BUF: usize = 2 * 1024 * 1024;

/// Appended once when the buffer fills up.
pub const FULL_NOTE: &'static str = "[strace: buffer full, oldest entries preserved]\n";

/// The character of the digit `d` (below 16); past 9, lower-case letters.
pub open spec fn digit_char(d: nat) -> char {
    if d == 0 { '0' } else if d == 1 { '1' } else if d == 2 { '2' } else if d == 3 { '3' }
    else if d == 4 { '4' } else if d == 5 { '5' } else if d == 6 { '6' } else if d == 7 { '7' }
    else if d == 8 { '8' } else if d == 9 { '9' } else if d == 10 { 'a' } else if d == 11 { 'b' }
    else if d == 12 { 'c' } else if d == 13 { 'd' } else if d == 14 { 'e' } else { 'f' }
}

/// The digits of `n` in base `b` (from 2 to 16), most significant first,
/// with no leading zeros: `0` is the single digit `0`.
pub open spec fn digits_spec(n: nat, b: nat) -> Seq<char>
    decreases n,
    via digits_spec_decreases
{
    if b < 2 || n < b {
        seq![digit_char(n)]
    } else {
        digits_spec(n / b, b).push(digit_char(n % b))
    }
}

#[via_fn]
proof fn digits_spec_decreases(n: nat, b: nat) {
    if !(b < 2 || n < b) {
        vstd::arithmetic::div_mod::lemma_div_decreases(n as int, b as int);
    }
}

/// An integer in decimal, with a leading `-` when it is negative.
pub open spec fn signed_decimal_spec(n: int) -> Seq<char> {
    if n < 0 {
        seq!['-'] + digits_spec((-n) as nat, 10)
    } else {
        digits_spec(n as nat, 10)
    }
}

/// A number as `{:#x}` writes it: `0x` and its lower-case hexadecimal digits.
pub open spec fn hex_spec(n: usize) -> Seq<char> {
    seq!['0', 'x'] + digits_spec(n as nat, 16)
}

/// The line recorded for one call:
/// `<task>[<tid>] <sysno>(<arg>,<arg>,<arg>,<arg>,<arg>,<arg>) = <ret>` and a
/// newline, the thread id and the return value in decimal, each argument as
/// `hex_spec` writes it.
pub open spec fn strace_line_spec(
    task_name: Seq<char>,
    tid: u64,
    sysno: Seq<char>,
    args: Seq<usize>,
    ret: isize,
) -> Seq<char> {
    task_name + seq!['['] + digits_spec(tid as nat, 10) + seq![']', ' '] + sysno + seq!['(']
        + hex_spec(args[0]) + seq![','] + hex_spec(args[1]) + seq![','] + hex_spec(args[2])
        + seq![','] + hex_spec(args[3]) + seq![','] + hex_spec(args[4]) + seq![','] + hex_spec(
        args[5],
    ) + seq![')', ' ', '=', ' '] + signed_decimal_spec(ret as int) + seq!['\n']
}

/// Calls `format!("{}", n)`: the decimal digits of `n`.
#[verifier::external_body]
fn decimal_u64(n: u64) -> (r: String)
    ensures
        r@ == digits_spec(n as nat, 10),
{
    format!("{}", n)
}

/// Calls `format!("{:#x}", n)`: `0x` and the lower-case hexadecimal digits
/// of `n`.
#[verifier::external_body]
fn hex_usize(n: usize) -> (r: String)
    ensures
        r@ == hex_spec(n),
{
    format!("{:#x}", n)
}

/// Calls `format!("{}", n)` on a signed number: its decimal digits, after a
/// `-` when it is negative.
#[verifier::external_body]
fn decimal_isize(n: isize) -> (r: String)
    ensures
        r@ == signed_decimal_spec(n as int),
{
    format!("{}", n)
}

/// Appends `sep` and then the `{:#x}` form of `n` to `line`.
fn append_hex(line: &mut String, sep: &str, n: usize)
    ensures
        final(line)@ == old(line)@ + sep@ + hex_spec(n),
{
    line.append(sep);
    let h = hex_usize(n);
    line.append(h.as_str());
}

/// The trace line of one call, as `strace_line_spec` writes it.
pub fn strace_line(task_name: &str, tid: u64, sysno: &str, args: &[usize; 6], ret: isize) -> (r: String)
    ensures
        r@ == strace_line_spec(task_name@, tid, sysno@, args@, ret),
{
    proof {
        reveal_strlit("[");
        reveal_strlit("] ");
        reveal_strlit("(");
        reveal_strlit(",");
        reveal_strlit(") = ");
        reveal_strlit("\n");
    }
    let mut line = String::from_str(task_name);
    line.append("[");
    let t = decimal_u64(tid);
    line.append(t.as_str());
    line.append("] ");
    line.append(sysno);
    append_hex(&mut line, "(", args[0]);
    append_hex(&mut line, ",", args[1]);
    append_hex(&mut line, ",", args[2]);
    append_hex(&mut line, ",", args[3]);
    append_hex(&mut line, ",", args[4]);
    append_hex(&mut line, ",", args[5]);
    line.append(") = ");
    let rs = decimal_isize(ret);
    line.append(rs.as_str());
    line.append("\n");
    assert(line@ =~= strace_line_spec(task_name@, tid, sysno@, args@, ret));
    line
}

/// What `str::to_lowercase` returns for a string.
pub uninterp spec fn lowercase_spec(s: Seq<char>) -> Seq<char>;

/// Calls `str::to_lowercase`: the lower-case form of `s` by Unicode's
/// rules, which the contract names rather than states.
#[verifier::external_body]
fn lowercase(s: &str) -> (r: String)
    ensures
        r@ == lowercase_spec(s@),
{
    s.to_lowercase()
}

/// Whether `c` has Unicode's `White_Space` property, the test of
/// `char::is_whitespace`.
pub open spec fn is_white_space(c: char) -> bool {
    let n = c as u32;
    ||| 0x9 <= n <= 0xd
    ||| n == 0x20
    ||| n == 0x85
    ||| n == 0xa0
    ||| n == 0x1680
    ||| 0x2000 <= n <= 0x200a
    ||| n == 0x2028
    ||| n == 0x2029
    ||| n == 0x202f
    ||| n == 0x205f
    ||| n == 0x3000
}

/// `s` without its leading white space.
pub open spec fn trim_start_spec(s: Seq<char>) -> Seq<char>
    decreases s.len(),
{
    if s.len() > 0 && is_white_space(s[0]) {
        trim_start_spec(s.drop_first())
    } else {
        s
    }
}

/// `s` without its trailing white space.
pub open spec fn trim_end_spec(s: Seq<char>) -> Seq<char>
    decreases s.len(),
{
    if s.len() > 0 && is_white_space(s.last()) {
        trim_end_spec(s.drop_last())
    } else {
        s
    }
}

/// `s` without its leading and trailing white space.
pub open spec fn trim_spec(s: Seq<char>) -> Seq<char> {
    trim_end_spec(trim_start_spec(s))
}

/// Calls `str::trim`: `s` without leading and trailing white space, white
/// space being the characters with Unicode's `White_Space` property.
#[verifier::external_body]
fn trim(s: &str) -> (r: &str)
    ensures
        r@ == trim_spec(s@),
{
    s.trim()
}

/// `s` without its trailing newlines.
pub open spec fn trim_newlines_spec(s: Seq<char>) -> Seq<char>
    decreases s.len(),
{
    if s.len() > 0 && s.last() == '\n' {
        trim_newlines_spec(s.drop_last())
    } else {
        s
    }
}

/// Calls `str::trim_end_matches('\n')`: `s` without its trailing newlines.
#[verifier::external_body]
fn trim_newlines(s: &str) -> (r: &str)
    ensures
        r@ == trim_newlines_spec(s@),
{
    s.trim_end_matches('\n')
}

/// Whether `needle` occurs in `hay` as a contiguous run.
pub open spec fn contains_spec(hay: Seq<char>, needle: Seq<char>) -> bool {
    exists|i: int| 0 <= i <= hay.len() - needle.len() && #[trigger] hay.subrange(i, i + needle.len()) == needle
}

/// Whether `needle` occurs in `hay` at position `i`.
fn occurs_at(hay: &Vec<char>, needle: &Vec<char>, i: usize) -> (b: bool)
    requires
        i + needle@.len() <= hay@.len(),
    ensures
        b == (hay@.subrange(i as int, i + needle@.len()) == needle@),
{
    let mut k: usize = 0;
    while k < needle.len()
        invariant
            i + needle@.len() <= hay@.len(),
            hay@.len() == hay.len(),
            0 <= k <= needle@.len(),
            forall|j: int| 0 <= j < k ==> hay@[i + j] == needle@[j],
        decreases needle@.len() - k,
    {
        if hay[i + k] != needle[k] {
            assert(hay@.subrange(i as int, i + needle@.len())[k as int] != needle@[k as int]);
            return false;
        }
        k = k + 1;
    }
    assert(hay@.subrange(i as int, i + needle@.len()) =~= needle@);
    true
}

/// Whether `needle` occurs in `hay`.
fn contains(hay: &Vec<char>, needle: &Vec<char>) -> (b: bool)
    ensures
        b == contains_spec(hay@, needle@),
{
    if needle.len() > hay.len() {
        return false;
    }
    let last = hay.len() - needle.len();
    let mut i: usize = 0;
    loop
        invariant
            last == hay@.len() - needle@.len(),
            0 <= i <= last,
            forall|j: int| 0 <= j < i ==> #[trigger] hay@.subrange(j, j + needle@.len()) != needle@,
        decreases last - i,
    {
        if occurs_at(hay, needle, i) {
            return true;
        }
        if i == last {
            return false;
        }
        i = i + 1;
    }
}

/// Whether `s` begins with `prefix`.
pub open spec fn starts_with_spec(s: Seq<char>, prefix: Seq<char>) -> bool {
    prefix.len() <= s.len() && s.subrange(0, prefix.len() as int) == prefix
}

/// Whether `hay` begins with `prefix`.
fn starts_with(hay: &Vec<char>, prefix: &Vec<char>) -> (b: bool)
    ensures
        b == starts_with_spec(hay@, prefix@),
{
    if prefix.len() > hay.len() {
        return false;
    }
    occurs_at(hay, prefix, 0)
}

/// The characters of `s`.
fn chars_of(s: &str) -> (v: Vec<char>)
    ensures
        v@ == s@,
{
    let n = s.unicode_len();
    let mut v: Vec<char> = Vec::new();
    let mut i: usize = 0;
    while i < n
        invariant
            n == s@.len(),
            0 <= i <= n,
            v@ == s@.subrange(0, i as int),
        decreases n - i,
    {
        v.push(s.get_char(i));
        i = i + 1;
        assert(v@ =~= s@.subrange(0, i as int));
    }
    v
}

/// Whether `a` and `b` hold the same characters.
fn same_chars(a: &str, b: &str) -> (r: bool)
    ensures
        r == (a@ == b@),
{
    let va = chars_of(a);
    let vb = chars_of(b);
    if va.len() != vb.len() {
        return false;
    }
    let mut i: usize = 0;
    while i < va.len()
        invariant
            va@ == a@,
            vb@ == b@,
            va@.len() == vb@.len(),
            0 <= i <= va@.len(),
            forall|j: int| 0 <= j < i ==> va@[j] == vb@[j],
        decreases va@.len() - i,
    {
        if va[i] != vb[i] {
            return false;
        }
        i = i + 1;
    }
    assert(va@ =~= vb@);
    true
}

/// The pieces of `s` that `split(sep)` yields so far, and the piece still
/// open after the last separator.
pub open spec fn split_state(s: Seq<char>, sep: char) -> (Seq<Seq<char>>, Seq<char>)
    decreases s.len(),
{
    if s.len() == 0 {
        (Seq::empty(), Seq::empty())
    } else {
        let (done, cur) = split_state(s.drop_last(), sep);
        if s.last() == sep {
            (done.push(cur), Seq::empty())
        } else {
            (done, cur.push(s.last()))
        }
    }
}

/// The pieces of `s` between the separators `sep`, in order: one more than
/// there are separators.
pub open spec fn split_spec(s: Seq<char>, sep: char) -> Seq<Seq<char>> {
    split_state(s, sep).0.push(split_state(s, sep).1)
}

/// A listed call name as the filter keeps it: trimmed and lower-cased.
pub open spec fn filter_name(piece: Seq<char>) -> Seq<char> {
    lowercase_spec(trim_spec(piece))
}

/// The call names kept from `pieces`: each trimmed and lower-cased, empty
/// ones dropped.
pub open spec fn filter_names(pieces: Seq<Seq<char>>) -> Seq<Seq<char>>
    decreases pieces.len(),
{
    if pieces.len() == 0 {
        Seq::empty()
    } else {
        let prev = filter_names(pieces.drop_last());
        if filter_name(pieces.last()).len() == 0 {
            prev
        } else {
            prev.push(filter_name(pieces.last()))
        }
    }
}

/// The filter string as it is parsed: newlines at its end dropped, then
/// trimmed.
pub open spec fn filter_input(raw: Seq<char>) -> Seq<char> {
    trim_spec(trim_newlines_spec(raw))
}

/// Whether `p` is the position of the first `:` of `raw`.
pub open spec fn first_colon(raw: Seq<char>, p: int) -> bool {
    0 <= p < raw.len() && raw[p] == ':' && forall|q: int| 0 <= q < p ==> raw[q] != ':'
}

/// The call names listed after the `:` at `p` in `raw`: none when nothing
/// follows it.
pub open spec fn listed_names(raw: Seq<char>, p: int) -> Seq<Seq<char>> {
    let sys = raw.subrange(p + 1, raw.len() as int);
    if sys.len() == 0 {
        Seq::empty()
    } else {
        filter_names(split_spec(sys, ','))
    }
}

/// The filter set by the parsed filter string `raw` (other than
/// `--clear`): the process part before its first `:` and the call names
/// after it; with no `:`, the whole of it and no call names.
pub open spec fn parse_filter(raw: Seq<char>) -> (Seq<char>, Seq<Seq<char>>) {
    if exists|p: int| first_colon(raw, p) {
        let p = choose|p: int| first_colon(raw, p);
        (raw.subrange(0, p), listed_names(raw, p))
    } else {
        (raw, Seq::empty())
    }
}

/// The buffer after an entry of bytes `line` is offered to buffer `buf`:
/// the line is appended when it fits; otherwise the full note is appended
/// when it fits, and the buffer becomes full.
pub open spec fn append_spec(buf: Seq<u8>, line: Seq<u8>) -> (Seq<u8>, bool) {
    if buf.len() + line.len() > MAX_BUF {
        (if buf.len() + FULL_NOTE.spec_bytes().len() <= MAX_BUF {
            buf + FULL_NOTE.spec_bytes()
        } else {
            buf
        }, true)
    } else {
        (buf + line, false)
    }
}

/// Offering an entry never changes what the buffer already holds, and never
/// lets it grow past `MAX_BUF`: the earliest entries are the ones kept.
pub proof fn lemma_append_keeps_earliest(buf: Seq<u8>, line: Seq<u8>)
    requires
        buf.len() <= MAX_BUF,
    ensures
        append_spec(buf, line).0.len() <= MAX_BUF,
        append_spec(buf, line).0.subrange(0, buf.len() as int) == buf,
        !append_spec(buf, line).1 ==> append_spec(buf, line).0 == buf + line,
{
    let r = append_spec(buf, line).0;
    assert(r.subrange(0, buf.len() as int) =~= buf);
}

/// The trace buffer and the filter.
pub struct StraceState {
    buf: Vec<u8>,
    proc_filter: Vec<char>,
    syscall_filter: Vec<Vec<char>>,
    full: bool,
}

/// `buf` with `bytes` appended.
fn push_all(buf: &mut Vec<u8>, bytes: &[u8])
    ensures
        final(buf)@ == old(buf)@ + bytes@,
{
    let ghost start = buf@;
    let mut i: usize = 0;
    while i < bytes.len()
        invariant
            0 <= i <= bytes@.len(),
            buf@ == start + bytes@.subrange(0, i as int),
        decreases bytes@.len() - i,
    {
        buf.push(bytes[i]);
        i = i + 1;
        assert(buf@ =~= start + bytes@.subrange(0, i as int));
    }
    assert(bytes@.subrange(0, bytes@.len() as int) =~= bytes@);
}

/// The characters `v[from..to]`.
fn copy_range(v: &Vec<char>, from: usize, to: usize) -> (r: Vec<char>)
    requires
        from <= to <= v@.len(),
    ensures
        r@ == v@.subrange(from as int, to as int),
{
    let mut r: Vec<char> = Vec::new();
    let mut i = from;
    while i < to
        invariant
            from <= i <= to <= v@.len(),
            r@ == v@.subrange(from as int, i as int),
        decreases to - i,
    {
        r.push(v[i]);
        i = i + 1;
        assert(r@ =~= v@.subrange(from as int, i as int));
    }
    r
}

/// The call name that the piece `t[start..end]` contributes: trimmed and
/// lower-cased.
fn piece_name(t: &str, start: usize, end: usize) -> (r: Vec<char>)
    requires
        start <= end <= t@.len(),
    ensures
        r@ == filter_name(t@.subrange(start as int, end as int)),
{
    let piece = t.substring_char(start, end);
    let lower = lowercase(trim(piece));
    chars_of(lower.as_str())
}

/// The call names listed in `t[from..]`, split at `,`, trimmed,
/// lower-cased, empty ones dropped.
fn parse_names(t: &str, chars: &Vec<char>, from: usize) -> (r: Vec<Vec<char>>)
    requires
        chars@ == t@,
        from <= t@.len(),
    ensures
        r@.map_values(|v: Vec<char>| v@) == filter_names(
            split_spec(t@.subrange(from as int, t@.len() as int), ','),
        ),
{
    let n = chars.len();
    let mut names: Vec<Vec<char>> = Vec::new();
    let mut start = from;
    let mut i = from;
    while i < n
        invariant
            chars@ == t@,
            n == t@.len(),
            from <= start <= i <= n,
            split_state(t@.subrange(from as int, i as int), ',').1 == t@.subrange(start as int, i as int),
            names@.map_values(|v: Vec<char>| v@) == filter_names(
                split_state(t@.subrange(from as int, i as int), ',').0,
            ),
        decreases n - i,
    {
        let ghost s = t@.subrange(from as int, i as int);
        let ghost s1 = t@.subrange(from as int, i + 1);
        assert(s1.drop_last() =~= s);
        assert(s1.last() == t@[i as int]);
        if chars[i] == ',' {
            let name = piece_name(t, start, i);
            let ghost done = split_state(s, ',').0;
            let ghost old_names = names@;
            assert(split_state(s1, ',').0 == done.push(t@.subrange(start as int, i as int)));
            assert(done.push(t@.subrange(start as int, i as int)).drop_last() =~= done);
            if name.len() > 0 {
                names.push(name);
                assert(names@.map_values(|v: Vec<char>| v@) =~= old_names.map_values(|v: Vec<char>| v@).push(
                    filter_name(t@.subrange(start as int, i as int)),
                ));
            }
            start = i + 1;
            assert(t@.subrange(start as int, i + 1) =~= Seq::<char>::empty());
        } else {
            assert(t@.subrange(start as int, i + 1) =~= t@.subrange(start as int, i as int).push(t@[i as int]));
        }
        i = i + 1;
    }
    let ghost s = t@.subrange(from as int, n as int);
    let ghost done = split_state(s, ',').0;
    let ghost old_names = names@;
    let name = piece_name(t, start, n);
    assert(split_spec(s, ',') == done.push(t@.subrange(start as int, n as int)));
    assert(done.push(t@.subrange(start as int, n as int)).drop_last() =~= done);
    if name.len() > 0 {
        names.push(name);
        assert(names@.map_values(|v: Vec<char>| v@) =~= old_names.map_values(|v: Vec<char>| v@).push(
            filter_name(t@.subrange(start as int, n as int)),
        ));
    }
    names
}

impl StraceState {
    /// The recorded bytes.
    pub closed spec fn buffer(&self) -> Seq<u8> {
        self.buf@
    }

    /// The process filter; empty matches every task.
    pub closed spec fn proc_filter(&self) -> Seq<char> {
        self.proc_filter@
    }

    /// The call names recorded; empty records every call.
    pub closed spec fn syscall_filter(&self) -> Seq<Seq<char>> {
        self.syscall_filter@.map_values(|v: Vec<char>| v@)
    }

    /// Whether the buffer takes no more entries.
    pub closed spec fn is_full(&self) -> bool {
        self.full
    }

    /// The buffer never holds more than `MAX_BUF` bytes.
    pub closed spec fn wf(&self) -> bool {
        self.buf@.len() <= MAX_BUF
    }

    /// A well-formed trace holds at most `MAX_BUF` bytes; `new` makes one and
    /// every operation keeps it so.
    pub proof fn lemma_wf_bounds_buffer(&self)
        requires
            self.wf(),
        ensures
            self.buffer().len() <= MAX_BUF,
    {
    }

    /// Whether a call named `sysno` of the task `task_name` passes the filter:
    /// the task name contains the process filter, and the lower-cased call
    /// name begins with one of the listed names.
    pub open spec fn selects(&self, task_name: Seq<char>, sysno: Seq<char>) -> bool {
        &&& (self.proc_filter().len() == 0 || contains_spec(task_name, self.proc_filter()))
        &&& (self.syscall_filter().len() == 0 || exists|k: int|
            0 <= k < self.syscall_filter().len() && starts_with_spec(
                lowercase_spec(sysno),
                #[trigger] self.syscall_filter()[k],
            ))
    }

    /// With no call names listed, the filter selects a call exactly when
    /// the process filter is empty or occurs as a contiguous run anywhere in
    /// the task's name (at its start, in the middle or at its end).
    pub proof fn lemma_process_filter(&self, task_name: Seq<char>, sysno: Seq<char>)
        requires
            self.syscall_filter().len() == 0,
        ensures
            self.selects(task_name, sysno) <==> (self.proc_filter().len() == 0 || exists|i: int|
                0 <= i && i + self.proc_filter().len() <= task_name.len() && #[trigger] task_name.subrange(
                    i,
                    i + self.proc_filter().len(),
                ) == self.proc_filter()),
    {
    }

    /// With an empty process filter, the filter selects a call exactly when
    /// no call name is listed or the lower-cased call name begins with one
    /// of them.
    pub proof fn lemma_syscall_filter(&self, task_name: Seq<char>, sysno: Seq<char>)
        requires
            self.proc_filter().len() == 0,
        ensures
            self.selects(task_name, sysno) <==> (self.syscall_filter().len() == 0 || exists|k: int|
                0 <= k < self.syscall_filter().len() && self.syscall_filter()[k].len() <= lowercase_spec(
                    sysno,
                ).len() && #[trigger] lowercase_spec(sysno).subrange(0, self.syscall_filter()[k].len() as int)
                    == self.syscall_filter()[k]),
    {
        if self.syscall_filter().len() > 0 {
            if self.selects(task_name, sysno) {
                let k = choose|k: int|
                    0 <= k < self.syscall_filter().len() && starts_with_spec(
                        lowercase_spec(sysno),
                        #[trigger] self.syscall_filter()[k],
                    );
                assert(lowercase_spec(sysno).subrange(0, self.syscall_filter()[k].len() as int)
                    == self.syscall_filter()[k]);
            }
            if exists|k: int|
                0 <= k < self.syscall_filter().len() && self.syscall_filter()[k].len() <= lowercase_spec(
                    sysno,
                ).len() && #[trigger] lowercase_spec(sysno).subrange(0, self.syscall_filter()[k].len() as int)
                    == self.syscall_filter()[k] {
                let k = choose|k: int|
                    0 <= k < self.syscall_filter().len() && self.syscall_filter()[k].len() <= lowercase_spec(
                        sysno,
                    ).len() && #[trigger] lowercase_spec(sysno).subrange(0, self.syscall_filter()[k].len() as int)
                        == self.syscall_filter()[k];
                assert(starts_with_spec(lowercase_spec(sysno), self.syscall_filter()[k]));
            }
        }
    }

    /// An empty buffer that records everything.
    pub fn new() -> (s: Self)
        ensures
            s.wf(),
            s.buffer() == Seq::<u8>::empty(),
            s.proc_filter() == Seq::<char>::empty(),
            s.syscall_filter() == Seq::<Seq<char>>::empty(),
            !s.is_full(),
    {
        let s = StraceState {
            buf: Vec::new(),
            proc_filter: Vec::new(),
            syscall_filter: Vec::new(),
            full: false,
        };
        assert(s.syscall_filter() =~= Seq::<Seq<char>>::empty());
        s
    }

    /// Whether the lower-cased call name `sysno_lower` begins with one of
    /// the listed call names.
    pub fn syscall_selected(&self, sysno_lower: &str) -> (b: bool)
        ensures
            b == exists|k: int|
                0 <= k < self.syscall_filter().len() && starts_with_spec(
                    sysno_lower@,
                    #[trigger] self.syscall_filter()[k],
                ),
    {
        let lower = chars_of(sysno_lower);
        let mut k: usize = 0;
        while k < self.syscall_filter.len()
            invariant
                lower@ == sysno_lower@,
                0 <= k <= self.syscall_filter@.len(),
                forall|j: int|
                    0 <= j < k ==> !starts_with_spec(sysno_lower@, #[trigger] self.syscall_filter()[j]),
            decreases self.syscall_filter@.len() - k,
        {
            assert(self.syscall_filter()[k as int] == self.syscall_filter@[k as int]@);
            if starts_with(&lower, &self.syscall_filter[k]) {
                return true;
            }
            k = k + 1;
        }
        false
    }

    /// Offers the bytes `line` of one entry: appended when the buffer is
    /// not full and they fit; when they do not fit, the full note is
    /// appended if it fits and the buffer becomes full.
    pub fn append_entry(&mut self, line: &[u8])
        requires
            old(self).wf(),
        ensures
            final(self).wf(),
            final(self).proc_filter() == old(self).proc_filter(),
            final(self).syscall_filter() == old(self).syscall_filter(),
            old(self).is_full() ==> final(self).buffer() == old(self).buffer() && final(self).is_full(),
            !old(self).is_full() ==> (final(self).buffer(), final(self).is_full()) == append_spec(
                old(self).buffer(),
                line@,
            ),
    {
        if self.full {
            return;
        }
        if line.len() > MAX_BUF - self.buf.len() {
            let note = FULL_NOTE.as_bytes();
            if note.len() <= MAX_BUF - self.buf.len() {
                push_all(&mut self.buf, note);
            }
            self.full = true;
            return;
        }
        push_all(&mut self.buf, line);
    }

    /// Records one call of the task `task_name`, thread `tid`: nothing when
    /// the buffer is full or the filter rejects the call; otherwise its line
    /// is offered to the buffer.
    pub fn record(&mut self, task_name: &str, tid: u64, sysno: &str, args: [usize; 6], ret: isize)
        requires
            old(self).wf(),
        ensures
            final(self).wf(),
            final(self).proc_filter() == old(self).proc_filter(),
            final(self).syscall_filter() == old(self).syscall_filter(),
            old(self).is_full() || !old(self).selects(task_name@, sysno@) ==> final(self).buffer()
                == old(self).buffer() && final(self).is_full() == old(self).is_full(),
            !old(self).is_full() && old(self).selects(task_name@, sysno@) ==> (
            final(self).buffer(),
            final(self).is_full(),
            ) == append_spec(
                old(self).buffer(),
                vstd::utf8::encode_utf8(strace_line_spec(task_name@, tid, sysno@, args@, ret)),
            ),
    {
        if self.full {
            return;
        }
        if self.proc_filter.len() > 0 {
            let task = chars_of(task_name);
            if !contains(&task, &self.proc_filter) {
                return;
            }
        }
        if self.syscall_filter.len() > 0 {
            let lower = lowercase(sysno);
            if !self.syscall_selected(lower.as_str()) {
                return;
            }
        }
        let line = strace_line(task_name, tid, sysno, &args, ret);
        self.append_entry(line.as_str().as_bytes());
    }

    /// Hands out the recorded bytes and empties the buffer, which then takes
    /// entries again.
    pub fn drain(&mut self) -> (out: Vec<u8>)
        requires
            old(self).wf(),
        ensures
            final(self).wf(),
            out@ == old(self).buffer(),
            final(self).buffer() == Seq::<u8>::empty(),
            !final(self).is_full(),
            final(self).proc_filter() == old(self).proc_filter(),
            final(self).syscall_filter() == old(self).syscall_filter(),
    {
        let out = self.buf.clone();
        self.buf = Vec::new();
        self.full = false;
        out
    }
    /// Applies a filter string written by the user: `--clear` empties the
    /// buffer and keeps the filter; anything else becomes the filter (see
    /// `parse_filter`) and empties the buffer too. Either way the buffer
    /// takes entries again.
    pub fn set_filter(&mut self, raw: &str)
        requires
            old(self).wf(),
        ensures
            final(self).wf(),
            final(self).buffer() == Seq::<u8>::empty(),
            !final(self).is_full(),
            filter_input(raw@) == "--clear"@ ==> final(self).proc_filter() == old(self).proc_filter()
                && final(self).syscall_filter() == old(self).syscall_filter(),
            filter_input(raw@) != "--clear"@ ==> (final(self).proc_filter(), final(self).syscall_filter())
                == parse_filter(filter_input(raw@)),
    {
        let t = trim(trim_newlines(raw));
        if same_chars(t, "--clear") {
            self.buf = Vec::new();
            self.full = false;
            return;
        }
        let chars = chars_of(t);
        let n = chars.len();
        let mut p: usize = 0;
        while p < n && chars[p] != ':'
            invariant
                chars@ == t@,
                n == t@.len(),
                0 <= p <= n,
                forall|q: int| 0 <= q < p ==> t@[q] != ':',
            decreases n - p,
        {
            p = p + 1;
        }
        if p < n {
            assert(first_colon(t@, p as int));
            let ghost c = choose|q: int| first_colon(t@, q);
            assert(c == p) by {
                assert(first_colon(t@, c));
                if c < p {
                    assert(t@[c] != ':');
                } else if c > p {
                    assert(t@[p as int] != ':');
                }
            }
            self.proc_filter = copy_range(&chars, 0, p);
            if p + 1 == n {
                self.syscall_filter = Vec::new();
                assert(t@.subrange(p + 1, n as int).len() == 0);
            } else {
                self.syscall_filter = parse_names(t, &chars, p + 1);
            }
        } else {
            assert(!exists|q: int| first_colon(t@, q));
            self.proc_filter = chars;
            self.syscall_filter = Vec::new();
        }
        self.buf = Vec::new();
        self.full = false;
        assert(self.syscall_filter@.map_values(|v: Vec<char>| v@) == self.syscall_filter());
    }
}

} // verus!

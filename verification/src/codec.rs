//! Codec for the worker's line protocol.
//!
//! Worker output lines of the form `EVT <KIND> [payload...]` are decoded into
//! [`WorkerEvent`] values; anything else is silently dropped. Outbound
//! commands are encoded by appending a single newline.

use vstd::prelude::*;

verus! {

/// One protocol event read from the worker: a kind token and the trimmed
/// payload text that followed it (empty when the line carried none).
#[derive(Clone, Debug)]
pub struct WorkerEvent {
    pub kind: String,
    pub payload: String,
}

/// Mathematical model of a [`WorkerEvent`]: both fields as character
/// sequences.
pub struct EventModel {
    pub kind: Seq<char>,
    pub payload: Seq<char>,
}

impl View for WorkerEvent {
    type V = EventModel;

    open spec fn view(&self) -> EventModel {
        EventModel { kind: self.kind@, payload: self.payload@ }
    }
}

/// The characters trimming removes and token splitting stops at: the Unicode
/// white-space characters.
pub open spec fn is_space_char(c: char) -> bool {
    ||| c == ' '
    ||| c == '\t'
    ||| c == '\n'
    ||| c == '\r'
    ||| c == '\u{b}'
    ||| c == '\u{c}'
    ||| c == '\u{85}'
    ||| c == '\u{a0}'
    ||| c == '\u{1680}'
    ||| c == '\u{2000}'
    ||| c == '\u{2001}'
    ||| c == '\u{2002}'
    ||| c == '\u{2003}'
    ||| c == '\u{2004}'
    ||| c == '\u{2005}'
    ||| c == '\u{2006}'
    ||| c == '\u{2007}'
    ||| c == '\u{2008}'
    ||| c == '\u{2009}'
    ||| c == '\u{200a}'
    ||| c == '\u{2028}'
    ||| c == '\u{2029}'
    ||| c == '\u{202f}'
    ||| c == '\u{205f}'
    ||| c == '\u{3000}'
}

/// `s` with its leading whitespace removed.
pub open spec fn trim_start_spec(s: Seq<char>) -> Seq<char>
    decreases s.len(),
{
    if s.len() > 0 && is_space_char(s[0]) {
        trim_start_spec(s.subrange(1, s.len() as int))
    } else {
        s
    }
}

/// `s` with its trailing whitespace removed.
pub open spec fn trim_end_spec(s: Seq<char>) -> Seq<char>
    decreases s.len(),
{
    if s.len() > 0 && is_space_char(s[s.len() - 1]) {
        trim_end_spec(s.subrange(0, s.len() - 1))
    } else {
        s
    }
}

/// `s` with whitespace removed at both ends.
pub open spec fn trim_spec(s: Seq<char>) -> Seq<char> {
    trim_end_spec(trim_start_spec(s))
}

proof fn lemma_trim_start_index(s: Seq<char>, i: int)
    requires
        0 <= i <= s.len(),
        forall|j: int| 0 <= j < i ==> is_space_char(s[j]),
        i == s.len() || !is_space_char(s[i]),
    ensures
        trim_start_spec(s) == s.subrange(i, s.len() as int),
    decreases i,
{
    if i == 0 {
        assert(s.subrange(0, s.len() as int) =~= s);
    } else {
        let tail = s.subrange(1, s.len() as int);
        lemma_trim_start_index(tail, i - 1);
        assert(tail.subrange(i - 1, tail.len() as int) =~= s.subrange(i, s.len() as int));
    }
}

proof fn lemma_trim_end_index(s: Seq<char>, k: int)
    requires
        0 <= k <= s.len(),
        forall|j: int| k <= j < s.len() ==> is_space_char(s[j]),
        k == 0 || !is_space_char(s[k - 1]),
    ensures
        trim_end_spec(s) == s.subrange(0, k),
    decreases s.len(),
{
    if k == s.len() {
        assert(s.subrange(0, k) =~= s);
    } else {
        let head = s.subrange(0, s.len() - 1);
        lemma_trim_end_index(head, k);
    }
}

fn is_space(c: char) -> (r: bool)
    ensures
        r == is_space_char(c),
{
    c == ' ' || c == '\t' || c == '\n' || c == '\r' || c == '\u{b}' || c == '\u{c}' || c
        == '\u{85}' || c == '\u{a0}' || c == '\u{1680}' || c == '\u{2000}' || c == '\u{2001}' || c
        == '\u{2002}' || c == '\u{2003}' || c == '\u{2004}' || c == '\u{2005}' || c == '\u{2006}'
        || c == '\u{2007}' || c == '\u{2008}' || c == '\u{2009}' || c == '\u{200a}' || c
        == '\u{2028}' || c == '\u{2029}' || c == '\u{202f}' || c == '\u{205f}' || c == '\u{3000}'
}

/// Remove whitespace at both ends of `s`.
pub fn trim(s: &str) -> (r: &str)
    ensures
        r@ == trim_spec(s@),
{
    let n = s.unicode_len();
    let mut start: usize = 0;
    while start < n && is_space(s.get_char(start))
        invariant
            start <= n == s@.len(),
            forall|j: int| 0 <= j < start ==> is_space_char(s@[j]),
        decreases n - start,
    {
        start += 1;
    }
    let mut end: usize = n;
    while end > start && is_space(s.get_char(end - 1))
        invariant
            start <= end <= n == s@.len(),
            forall|j: int| end <= j < n ==> is_space_char(s@[j]),
        decreases end,
    {
        end -= 1;
    }
    proof {
        lemma_trim_start_index(s@, start as int);
        let t1 = s@.subrange(start as int, s@.len() as int);
        lemma_trim_end_index(t1, end - start);
        assert(t1.subrange(0, end - start) =~= s@.subrange(start as int, end as int));
    }
    s.substring_char(start, end)
}

/// Character-for-character string equality.
pub fn str_eq(a: &str, b: &str) -> (r: bool)
    ensures
        r == (a@ == b@),
{
    let n = a.unicode_len();
    if n != b.unicode_len() {
        return false;
    }
    let mut i: usize = 0;
    while i < n
        invariant
            i <= n == a@.len(),
            a@.len() == b@.len(),
            forall|j: int| 0 <= j < i ==> a@[j] == b@[j],
        decreases n - i,
    {
        if a.get_char(i) != b.get_char(i) {
            return false;
        }
        i += 1;
    }
    proof {
        assert(a@ =~= b@);
    }
    true
}

/// The four characters every protocol event line starts with once trimmed.
pub open spec fn evt_prefix() -> Seq<char> {
    seq!['E', 'V', 'T', ' ']
}

/// Index of the first non-whitespace character at or after position `i`, or
/// the length of `s` when only whitespace follows.
pub open spec fn skip_spaces_from(s: Seq<char>, i: int) -> int
    decreases s.len() - i,
{
    if i >= s.len() {
        s.len() as int
    } else if is_space_char(s[i]) {
        skip_spaces_from(s, i + 1)
    } else {
        i
    }
}

/// Index of the first whitespace character at or after position `i`, or the
/// length of `s` when none follows: the end of the token starting at `i`.
pub open spec fn token_end_from(s: Seq<char>, i: int) -> int
    decreases s.len() - i,
{
    if i >= s.len() {
        s.len() as int
    } else if !is_space_char(s[i]) {
        token_end_from(s, i + 1)
    } else {
        i
    }
}

proof fn lemma_skip_spaces_from(s: Seq<char>, from: int, i: int)
    requires
        0 <= from <= i <= s.len(),
        forall|j: int| from <= j < i ==> is_space_char(s[j]),
        i == s.len() || !is_space_char(s[i]),
    ensures
        skip_spaces_from(s, from) == i,
    decreases i - from,
{
    if from < i {
        lemma_skip_spaces_from(s, from + 1, i);
    }
}

proof fn lemma_token_end_from(s: Seq<char>, from: int, i: int)
    requires
        0 <= from <= i <= s.len(),
        forall|j: int| from <= j < i ==> !is_space_char(s[j]),
        i == s.len() || is_space_char(s[i]),
    ensures
        token_end_from(s, from) == i,
    decreases i - from,
{
    if from < i {
        lemma_token_end_from(s, from + 1, i);
    }
}

/// What `decode` yields for a line. The fields are whitespace-delimited: the
/// kind is the first maximal run of non-whitespace after the `EVT ` prefix,
/// the payload the trimmed remainder after the kind, kept verbatim inside.
/// A line whose trimmed form does not start with `EVT `, or that carries no
/// kind token, yields nothing.
pub open spec fn decode_spec(line: Seq<char>) -> Option<EventModel> {
    let t = trim_spec(line);
    if t.len() < 4 || t.subrange(0, 4) != evt_prefix() {
        None
    } else {
        let kind_start = skip_spaces_from(t, 4);
        if kind_start >= t.len() {
            None
        } else {
            let kind_end = token_end_from(t, kind_start);
            Some(
                EventModel {
                    kind: t.subrange(kind_start, kind_end),
                    payload: trim_spec(t.subrange(kind_end, t.len() as int)),
                },
            )
        }
    }
}

/// Decode one worker output line, yielding its event or dropping it.
pub fn decode(line: &str) -> (r: Option<WorkerEvent>)
    ensures
        r is Some <==> decode_spec(line@) is Some,
        r matches Some(ev) ==> decode_spec(line@) == Some(ev@),
{
    let t = trim(line);
    let n = t.unicode_len();
    if n < 4 {
        return None;
    }
    if !(t.get_char(0) == 'E' && t.get_char(1) == 'V' && t.get_char(2) == 'T' && t.get_char(3)
        == ' ') {
        proof {
            if t@.subrange(0, 4) == evt_prefix() {
                assert(t@[0] == 'E' && t@[1] == 'V' && t@[2] == 'T' && t@[3] == ' ');
            }
        }
        return None;
    }
    proof {
        assert(t@.subrange(0, 4) =~= evt_prefix());
    }
    let mut kind_start: usize = 4;
    while kind_start < n && is_space(t.get_char(kind_start))
        invariant
            4 <= kind_start <= n == t@.len(),
            forall|j: int| 4 <= j < kind_start ==> is_space_char(t@[j]),
        decreases n - kind_start,
    {
        kind_start += 1;
    }
    proof {
        lemma_skip_spaces_from(t@, 4, kind_start as int);
    }
    if kind_start == n {
        return None;
    }
    let mut kind_end: usize = kind_start;
    while kind_end < n && !is_space(t.get_char(kind_end))
        invariant
            kind_start <= kind_end <= n == t@.len(),
            forall|j: int| kind_start <= j < kind_end ==> !is_space_char(t@[j]),
        decreases n - kind_end,
    {
        kind_end += 1;
    }
    proof {
        lemma_token_end_from(t@, kind_start as int, kind_end as int);
    }
    let kind = String::from_str(t.substring_char(kind_start, kind_end));
    let payload = String::from_str(trim(t.substring_char(kind_end, n)));
    Some(WorkerEvent { kind, payload })
}

proof fn lemma_trim_end_append(a: Seq<char>, b: Seq<char>)
    ensures
        trim_end_spec(a + b) == (if trim_end_spec(b).len() > 0 {
            a + trim_end_spec(b)
        } else {
            trim_end_spec(a)
        }),
    decreases b.len(),
{
    if b.len() == 0 {
        assert(a + b =~= a);
    } else if is_space_char(b[b.len() - 1]) {
        let b2 = b.subrange(0, b.len() - 1);
        assert((a + b).subrange(0, (a + b).len() - 1) =~= a + b2);
        lemma_trim_end_append(a, b2);
    }
}

proof fn lemma_trim_end_idempotent(s: Seq<char>)
    ensures
        trim_end_spec(trim_end_spec(s)) == trim_end_spec(s),
    decreases s.len(),
{
    if s.len() > 0 && is_space_char(s[s.len() - 1]) {
        lemma_trim_end_idempotent(s.subrange(0, s.len() - 1));
    }
}

proof fn lemma_trim_commute(s: Seq<char>)
    ensures
        trim_start_spec(trim_end_spec(s)) == trim_end_spec(trim_start_spec(s)),
    decreases s.len(),
{
    if s.len() == 0 {
    } else {
        let head = s.subrange(0, 1);
        let s1 = s.subrange(1, s.len() as int);
        assert(s =~= head + s1);
        lemma_trim_end_append(head, s1);
        if is_space_char(s[0]) {
            lemma_trim_commute(s1);
            if trim_end_spec(s1).len() > 0 {
                let te = trim_end_spec(s);
                assert(te == head + trim_end_spec(s1));
                assert(te.len() > 0 && is_space_char(te[0]));
                assert(te.subrange(1, te.len() as int) =~= trim_end_spec(s1));
            } else {
                assert(head.len() == 1 && is_space_char(head[0]));
                assert(trim_end_spec(head) == trim_end_spec(head.subrange(0, 0)));
                assert(head.subrange(0, 0) =~= Seq::<char>::empty());
                assert(trim_end_spec(Seq::<char>::empty()) =~= Seq::<char>::empty());
            }
        } else {
            let te = trim_end_spec(s);
            if trim_end_spec(s1).len() > 0 {
                assert(te == head + trim_end_spec(s1));
                assert(te.len() > 0 && !is_space_char(te[0]));
            } else {
                assert(trim_end_spec(head) == head);
                assert(te.len() > 0 && !is_space_char(te[0]));
            }
        }
    }
}

/// Every well-formed event line decodes to its kind token and its trimmed
/// payload: for a kind without whitespace, `EVT <kind> <payload>` yields
/// exactly `{ kind, trim(payload) }`.
pub proof fn lemma_decode_valid_line(kind: Seq<char>, payload: Seq<char>)
    requires
        kind.len() > 0,
        forall|j: int| 0 <= j < kind.len() ==> !is_space_char(kind[j]),
    ensures
        decode_spec(evt_prefix() + kind + seq![' '] + payload) == Some(
            EventModel { kind, payload: trim_spec(payload) },
        ),
{
    let line = evt_prefix() + kind + seq![' '] + payload;
    let a1 = evt_prefix() + kind + seq![' '];
    assert(line[0] == 'E');
    lemma_trim_start_index(line, 0);
    assert(trim_start_spec(line) == line.subrange(0, line.len() as int));
    assert(line.subrange(0, line.len() as int) =~= line);
    assert(line =~= a1 + payload);
    lemma_trim_end_append(a1, payload);
    lemma_trim_commute(payload);
    let t = trim_spec(line);
    if trim_end_spec(payload).len() > 0 {
        let tp = trim_end_spec(payload);
        assert(t == a1 + tp);
        assert(t.subrange(0, 4) =~= evt_prefix());
        assert(!is_space_char(t[4]));
        lemma_skip_spaces_from(t, 4, 4);
        assert(is_space_char(t[4 + kind.len() as int]));
        lemma_token_end_from(t, 4, 4 + kind.len() as int);
        assert(t.subrange(4, 4 + kind.len() as int) =~= kind);
        let rest = t.subrange(4 + kind.len() as int, t.len() as int);
        assert(rest =~= seq![' '] + tp);
        assert(rest.len() > 0 && is_space_char(rest[0]));
        assert(rest.subrange(1, rest.len() as int) =~= tp);
        assert(trim_start_spec(rest) == trim_start_spec(tp));
        lemma_trim_end_idempotent(trim_start_spec(payload));
        assert(trim_spec(rest) == trim_spec(payload));
    } else {
        let pk = evt_prefix() + kind;
        assert(a1 =~= pk + seq![' ']);
        lemma_trim_end_append(pk, seq![' ']);
        let sep: Seq<char> = seq![' '];
        assert(sep.len() == 1 && is_space_char(sep[0]));
        assert(trim_end_spec(sep) == trim_end_spec(sep.subrange(0, 0)));
        assert(sep.subrange(0, 0) =~= Seq::<char>::empty());
        assert(trim_end_spec(Seq::<char>::empty()) =~= Seq::<char>::empty());
        assert(!is_space_char(pk[pk.len() - 1]));
        assert(trim_end_spec(pk) == pk);
        assert(t == pk);
        assert(t.subrange(0, 4) =~= evt_prefix());
        assert(!is_space_char(t[4]));
        lemma_skip_spaces_from(t, 4, 4);
        lemma_token_end_from(t, 4, t.len() as int);
        assert(t.subrange(4, t.len() as int) =~= kind);
        assert(t.subrange(t.len() as int, t.len() as int) =~= Seq::<char>::empty());
        assert(trim_start_spec(Seq::<char>::empty()) == Seq::<char>::empty());
        assert(trim_spec(t.subrange(t.len() as int, t.len() as int)) =~= Seq::<char>::empty());
        assert(trim_spec(payload) =~= Seq::<char>::empty());
    }
}

/// A line whose trimmed form does not start with `EVT ` decodes to nothing.
pub proof fn lemma_decode_rejects_non_event(line: Seq<char>)
    requires
        trim_spec(line).len() < 4 || trim_spec(line).subrange(0, 4) != evt_prefix(),
    ensures
        decode_spec(line) is None,
{
}

/// What `encode` yields for a command: the command with a newline appended.
pub open spec fn encoded_line(command: Seq<char>) -> Seq<char> {
    command.push('\n')
}

/// Encode one outbound command line: the command followed by a single
/// newline. Commands come from a closed fixed set and contain no newline, so
/// no escaping is needed.
pub fn encode(command: &str) -> (r: String)
    ensures
        r@ == encoded_line(command@),
{
    let mut s = String::from_str(command);
    s.append("\n");
    proof {
        reveal_strlit("\n");
        assert(s@ =~= command@.push('\n'));
    }
    s
}

} // verus!

use vstd::prelude::*;

verus! {

/// True of the characters `char::is_whitespace` recognizes: the Unicode
/// White_Space set, which `str::trim` removes at both ends of a line.
pub open spec fn is_space_char(c: char) -> bool {
    ||| c == ' '
    ||| c == '\t'
    ||| c == '\n'
    ||| c == '\u{0B}'
    ||| c == '\u{0C}'
    ||| c == '\r'
    ||| c == '\u{85}'
    ||| c == '\u{A0}'
    ||| c == '\u{1680}'
    ||| c == '\u{2000}'
    ||| c == '\u{2001}'
    ||| c == '\u{2002}'
    ||| c == '\u{2003}'
    ||| c == '\u{2004}'
    ||| c == '\u{2005}'
    ||| c == '\u{2006}'
    ||| c == '\u{2007}'
    ||| c == '\u{2008}'
    ||| c == '\u{2009}'
    ||| c == '\u{200A}'
    ||| c == '\u{2028}'
    ||| c == '\u{2029}'
    ||| c == '\u{202F}'
    ||| c == '\u{205F}'
    ||| c == '\u{3000}'
}

/// A line ending in '\r' loses it when the line was closed by '\n',
/// as `str::lines` drops the '\r' of a "\r\n" ending.
pub open spec fn strip_cr(l: Seq<char>) -> Seq<char> {
    if l.len() > 0 && l.last() == '\r' {
        l.drop_last()
    } else {
        l
    }
}

/// Leading whitespace removed.
pub open spec fn trim_start_spec(l: Seq<char>) -> Seq<char>
    decreases l.len(),
{
    if l.len() > 0 && is_space_char(l[0]) {
        trim_start_spec(l.drop_first())
    } else {
        l
    }
}

/// Trailing whitespace removed.
pub open spec fn trim_end_spec(l: Seq<char>) -> Seq<char>
    decreases l.len(),
{
    if l.len() > 0 && is_space_char(l.last()) {
        trim_end_spec(l.drop_last())
    } else {
        l
    }
}

/// Whitespace removed at both ends, as `str::trim` does.
pub open spec fn trim_spec(l: Seq<char>) -> Seq<char> {
    trim_end_spec(trim_start_spec(l))
}

/// The sentinel that closes the scanned block of a chunk.
pub open spec fn sentinel_seq() -> Seq<char> {
    seq!['#', ' ', 'E', 'N', 'D', ' ', 'D', 'M', 'I']
}

/// The sentinel stands in `l` at position `p`.
pub open spec fn sentinel_at(l: Seq<char>, p: int) -> bool {
    0 <= p && p + 9 <= l.len() && l.subrange(p, p + 9) == sentinel_seq()
}

/// The line holds the sentinel somewhere, as `str::contains` finds it.
pub open spec fn contains_sentinel(l: Seq<char>) -> bool {
    exists|p: int| #[trigger] sentinel_at(l, p)
}

/// A trimmed line of the shape `state = "<name>"`: the nine characters of
/// the prefix, then the name, then a closing quote.
pub open spec fn is_state_line(t: Seq<char>) -> bool {
    &&& t.len() >= 10
    &&& t[0] == 's'
    &&& t[1] == 't'
    &&& t[2] == 'a'
    &&& t[3] == 't'
    &&& t[4] == 'e'
    &&& t[5] == ' '
    &&& t[6] == '='
    &&& t[7] == ' '
    &&& t[8] == '"'
    &&& t[t.len() - 1] == '"'
}

/// The name a state line carries: what stands between the prefix and the
/// closing quote, kept exactly as written.
pub open spec fn state_name(t: Seq<char>) -> Seq<char> {
    t.subrange(9, t.len() - 1)
}

/// What one line contributes to the state list: its name if it is a state
/// line after trimming, nothing otherwise.
pub open spec fn line_states(l: Seq<char>) -> Seq<Seq<char>> {
    let t = trim_spec(l);
    if is_state_line(t) {
        seq![state_name(t)]
    } else {
        Seq::empty()
    }
}

/// Scans the text a character at a time: `line` is the line read so far; a
/// '\n' closes it (dropping a '\r' directly before), the end of input closes
/// the last line as it stands. A line holding the sentinel ends the whole
/// scan; any other line contributes its state name, if it has one.
pub open spec fn scan_states(s: Seq<char>, line: Seq<char>) -> Seq<Seq<char>>
    decreases s.len(),
{
    if s.len() == 0 {
        if contains_sentinel(line) {
            Seq::empty()
        } else {
            line_states(line)
        }
    } else if s[0] == '\n' {
        let l = strip_cr(line);
        if contains_sentinel(l) {
            Seq::empty()
        } else {
            line_states(l) + scan_states(s.drop_first(), Seq::empty())
        }
    } else {
        scan_states(s.drop_first(), line.push(s[0]))
    }
}

/// The ordered state names of one chunk's text, scanned line by line up to
/// the sentinel.
pub open spec fn states_of_text(s: Seq<char>) -> Seq<Seq<char>> {
    scan_states(s, Seq::empty())
}

/// Relies on str::chars: it yields exactly the characters of the string's
/// view, in order.
#[verifier::external_body]
fn text_chars(s: &str) -> (r: Vec<char>)
    ensures
        r@ == s@,
{
    s.chars().collect()
}

/// Relies on String's FromIterator over characters: collecting the
/// characters back gives a string whose view is exactly those characters.
#[verifier::external_body]
fn string_from_chars(v: &Vec<char>) -> (r: String)
    ensures
        r@ == v@,
{
    v.iter().collect()
}

fn is_space(c: char) -> (r: bool)
    ensures
        r == is_space_char(c),
{
    c == ' ' || c == '\t' || c == '\n' || c == '\u{0B}' || c == '\u{0C}' || c == '\r'
        || c == '\u{85}' || c == '\u{A0}' || c == '\u{1680}' || c == '\u{2000}' || c == '\u{2001}'
        || c == '\u{2002}' || c == '\u{2003}' || c == '\u{2004}' || c == '\u{2005}'
        || c == '\u{2006}' || c == '\u{2007}' || c == '\u{2008}' || c == '\u{2009}'
        || c == '\u{200A}' || c == '\u{2028}' || c == '\u{2029}' || c == '\u{202F}'
        || c == '\u{205F}' || c == '\u{3000}'
}

fn sentinel_here(l: &Vec<char>, p: usize) -> (r: bool)
    requires
        p + 9 <= l@.len(),
    ensures
        r == sentinel_at(l@, p as int),
{
    let n = l.len();
    let r = l[p] == '#' && l[p + 1] == ' ' && l[p + 2] == 'E' && l[p + 3] == 'N' && l[p + 4] == 'D'
        && l[p + 5] == ' ' && l[p + 6] == 'D' && l[p + 7] == 'M' && l[p + 8] == 'I';
    proof {
        if r {
            assert(l@.subrange(p as int, p + 9) =~= sentinel_seq());
        } else {
            if l@.subrange(p as int, p + 9) == sentinel_seq() {
                assert(l@[p + 0] == sentinel_seq()[0]);
                assert(l@[p + 1] == sentinel_seq()[1]);
                assert(l@[p + 2] == sentinel_seq()[2]);
                assert(l@[p + 3] == sentinel_seq()[3]);
                assert(l@[p + 4] == sentinel_seq()[4]);
                assert(l@[p + 5] == sentinel_seq()[5]);
                assert(l@[p + 6] == sentinel_seq()[6]);
                assert(l@[p + 7] == sentinel_seq()[7]);
                assert(l@[p + 8] == sentinel_seq()[8]);
            }
        }
    }
    r
}

fn has_sentinel(l: &Vec<char>) -> (r: bool)
    ensures
        r == contains_sentinel(l@),
{
    let n = l.len();
    if n < 9 {
        proof {
            assert forall|p: int| !sentinel_at(l@, p) by {}
        }
        return false;
    }
    let mut p: usize = 0;
    while p <= n - 9
        invariant
            9 <= n,
            0 <= p <= n - 8,
            n == l@.len(),
            forall|j: int| 0 <= j < p ==> !#[trigger] sentinel_at(l@, j),
        decreases n - p,
    {
        if sentinel_here(l, p) {
            return true;
        }
        p += 1;
    }
    proof {
        assert forall|j: int| #[trigger] sentinel_at(l@, j) implies false by {
            assert(0 <= j && j + 9 <= n);
            assert(j < p);
        }
    }
    false
}

proof fn lemma_trim_start_skip(l: Seq<char>, a: int)
    requires
        0 <= a <= l.len(),
        forall|j: int| 0 <= j < a ==> is_space_char(#[trigger] l[j]),
        a < l.len() ==> !is_space_char(l[a]),
    ensures
        trim_start_spec(l) == l.skip(a),
    decreases a,
{
    if a == 0 {
        assert(l.skip(0) =~= l);
    } else {
        assert(is_space_char(l[0]));
        assert(l.drop_first() =~= l.skip(1));
        lemma_trim_start_skip(l.drop_first(), a - 1);
        assert(l.drop_first().skip(a - 1) =~= l.skip(a));
    }
}

proof fn lemma_trim_end_take(l: Seq<char>, b: int)
    requires
        0 <= b <= l.len(),
        forall|j: int| b <= j < l.len() ==> is_space_char(#[trigger] l[j]),
        b > 0 ==> !is_space_char(l[b - 1]),
    ensures
        trim_end_spec(l) == l.take(b),
    decreases l.len() - b,
{
    if b == l.len() {
        assert(l.take(b) =~= l);
    } else {
        assert(is_space_char(l.last()));
        lemma_trim_end_take(l.drop_last(), b);
        assert(l.drop_last().take(b) =~= l.take(b));
    }
}

/// The bounds of the trimmed part of the line: `trim_spec(l@)` is exactly
/// `l@.subrange(r.0, r.1)`.
fn trim_range(l: &Vec<char>) -> (r: (usize, usize))
    ensures
        r.0 <= r.1 <= l@.len(),
        trim_spec(l@) == l@.subrange(r.0 as int, r.1 as int),
{
    let n = l.len();
    let mut a: usize = 0;
    while a < n && is_space(l[a])
        invariant
            0 <= a <= n,
            n == l@.len(),
            forall|j: int| 0 <= j < a ==> is_space_char(#[trigger] l@[j]),
        decreases n - a,
    {
        a += 1;
    }
    proof {
        lemma_trim_start_skip(l@, a as int);
    }
    if a == n {
        proof {
            assert(l@.skip(n as int).len() == 0);
            assert(trim_end_spec(l@.skip(n as int)) =~= l@.subrange(n as int, n as int));
        }
        return (n, n);
    }
    let mut b: usize = n;
    while b > a && is_space(l[b - 1])
        invariant
            a <= b <= n,
            n == l@.len(),
            forall|j: int| b <= j < n ==> is_space_char(#[trigger] l@[j]),
            a < n,
            !is_space_char(l@[a as int]),
        decreases b,
    {
        b -= 1;
    }
    proof {
        let t = l@.skip(a as int);
        assert forall|j: int| b - a <= j < t.len() implies is_space_char(#[trigger] t[j]) by {
            assert(t[j] == l@[j + a]);
        }
        assert(t[b - a - 1] == l@[b - 1]);
        lemma_trim_end_take(t, b - a);
        assert(t.take(b - a) =~= l@.subrange(a as int, b as int));
    }
    (a, b)
}

/// Processes one closed line: reports whether the sentinel ends the scan,
/// and otherwise appends the line's state name, if it has one.
fn process_line(l: &Vec<char>, states: &mut Vec<String>) -> (stop: bool)
    ensures
        stop == contains_sentinel(l@),
        stop ==> final(states)@ == old(states)@,
        !stop ==> final(states).deep_view() == old(states).deep_view() + line_states(l@),
{
    if has_sentinel(l) {
        return true;
    }
    let (a, b) = trim_range(l);
    let ghost t = trim_spec(l@);
    if b - a >= 10 && l[a] == 's' && l[a + 1] == 't' && l[a + 2] == 'a' && l[a + 3] == 't' && l[a
        + 4] == 'e' && l[a + 5] == ' ' && l[a + 6] == '=' && l[a + 7] == ' ' && l[a + 8] == '"'
        && l[b - 1] == '"' {
        proof {
            assert(t.len() == b - a);
            assert(t[0] == l@[a as int]);
            assert(t[1] == l@[a + 1]);
            assert(t[2] == l@[a + 2]);
            assert(t[3] == l@[a + 3]);
            assert(t[4] == l@[a + 4]);
            assert(t[5] == l@[a + 5]);
            assert(t[6] == l@[a + 6]);
            assert(t[7] == l@[a + 7]);
            assert(t[8] == l@[a + 8]);
            assert(t[t.len() - 1] == l@[b - 1]);
            assert(is_state_line(t));
        }
        let mut name: Vec<char> = Vec::new();
        let mut j = a + 9;
        while j < b - 1
            invariant
                a + 9 <= j <= b - 1,
                b <= l@.len(),
                name@ == l@.subrange(a + 9, j as int),
            decreases b - j,
        {
            name.push(l[j]);
            proof {
                assert(l@.subrange(a + 9, j + 1) =~= l@.subrange(a + 9, j as int).push(
                    l@[j as int],
                ));
            }
            j += 1;
        }
        proof {
            assert(name@ =~= state_name(t));
        }
        let s = string_from_chars(&name);
        let ghost states0 = states.deep_view();
        states.push(s);
        proof {
            assert(states.deep_view() =~= states0 + line_states(l@));
        }
        false
    } else {
        proof {
            if is_state_line(t) {
                assert(t.len() == b - a);
                assert(t[0] == l@[a as int]);
                assert(t[1] == l@[a + 1]);
                assert(t[2] == l@[a + 2]);
                assert(t[3] == l@[a + 3]);
                assert(t[4] == l@[a + 4]);
                assert(t[5] == l@[a + 5]);
                assert(t[6] == l@[a + 6]);
                assert(t[7] == l@[a + 7]);
                assert(t[8] == l@[a + 8]);
                assert(t[t.len() - 1] == l@[b - 1]);
            }
            assert(!is_state_line(t));
            assert(states.deep_view() =~= states.deep_view() + line_states(l@));
        }
        false
    }
}

/// The ordered `state = "<name>"` entries of one chunk's text, scanned line
/// by line until a line holding `# END DMI`; other lines are skipped, names
/// are kept as written, duplicates and all.
pub fn states_in_text(text: &str) -> (r: Vec<String>)
    ensures
        r.deep_view() == states_of_text(text@),
{
    let chars = text_chars(text);
    let n = chars.len();
    let mut states: Vec<String> = Vec::new();
    let mut line: Vec<char> = Vec::new();
    let mut i: usize = 0;
    proof {
        assert(chars@.skip(0) =~= chars@);
        assert(states.deep_view() =~= Seq::<Seq<char>>::empty());
        assert(Seq::<Seq<char>>::empty() + scan_states(chars@, line@) =~= scan_states(
            chars@,
            line@,
        ));
    }
    while i < n
        invariant
            0 <= i <= n,
            n == chars@.len(),
            chars@ == text@,
            states_of_text(text@) == states.deep_view() + scan_states(
                chars@.skip(i as int),
                line@,
            ),
        decreases n - i,
    {
        let c = chars[i];
        proof {
            assert(chars@.skip(i as int)[0] == c);
            assert(chars@.skip(i as int).drop_first() =~= chars@.skip(i + 1));
        }
        if c == '\n' {
            let ghost raw = line@;
            if line.len() > 0 && line[line.len() - 1] == '\r' {
                line.pop();
            }
            proof {
                assert(line@ =~= strip_cr(raw));
            }
            let ghost before = states.deep_view();
            let ghost l = strip_cr(raw);
            let stop = process_line(&line, &mut states);
            proof {
                assert(scan_states(chars@.skip(i as int), raw) == (if contains_sentinel(l) {
                    Seq::<Seq<char>>::empty()
                } else {
                    line_states(l) + scan_states(chars@.skip(i + 1), Seq::<char>::empty())
                }));
            }
            if stop {
                proof {
                    assert(before + Seq::<Seq<char>>::empty() =~= before);
                }
                return states;
            }
            line.clear();
            proof {
                assert(line@ =~= Seq::<char>::empty());
                assert(before + (line_states(l) + scan_states(chars@.skip(i + 1), line@)) =~= (
                before + line_states(l)) + scan_states(chars@.skip(i + 1), line@));
            }
        } else {
            line.push(c);
        }
        i += 1;
    }
    proof {
        assert(chars@.skip(n as int).len() == 0);
    }
    let ghost before = states.deep_view();
    let ghost l = line@;
    let stop = process_line(&line, &mut states);
    proof {
        assert(scan_states(chars@.skip(n as int), l) == (if contains_sentinel(l) {
            Seq::<Seq<char>>::empty()
        } else {
            line_states(l)
        }));
        if stop {
            assert(before + Seq::<Seq<char>>::empty() =~= before);
        } else {
            assert(states.deep_view() =~= before + line_states(l));
        }
    }
    states
}

} // verus!

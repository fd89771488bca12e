//! The autogenerated block of a hosts file, which maps each guest's
//! addresses to its name on the machine that runs the orchestration.
use crate::ipv4::{octets_text, IPv4};
use crate::text::{chars_of, push_str, string_of, text_is};
use crate::watch::strings_view;
use vstd::prelude::*;

verus! {

/// The line that marks the block.
pub open spec fn mark_line() -> Seq<char> {
    "# autogenerated by flota"@
}

/// The line that opens the block's entries.
pub open spec fn open_line() -> Seq<char> {
    "# >>>>"@
}

/// The line that closes the block's entries.
pub open spec fn close_line() -> Seq<char> {
    "# <<<<"@
}

/// The position of the last line before `end` equal to `target`, or -1.
pub open spec fn find_last(lines: Seq<Seq<char>>, target: Seq<char>, end: int) -> int
    decreases end,
{
    if end <= 0 {
        -1
    } else if lines[end - 1] == target {
        end - 1
    } else {
        find_last(lines, target, end - 1)
    }
}

/// The position of the first line from `start` on equal to `target`, or the
/// number of lines.
pub open spec fn find_from(lines: Seq<Seq<char>>, target: Seq<char>, start: int) -> int
    decreases lines.len() - start,
{
    if start >= lines.len() {
        lines.len() as int
    } else if lines[start] == target {
        start
    } else {
        find_from(lines, target, start + 1)
    }
}

/// The line maps the address `ip`: its first field is `ip`.
pub open spec fn names_ip(line: Seq<char>, ip: Seq<char>) -> bool {
    &&& line.len() >= ip.len()
    &&& line.take(ip.len() as int) == ip
    &&& (line.len() == ip.len() || line[ip.len() as int] == ' ' || line[ip.len() as int] == '\t')
}

/// The lines of a hosts file after mapping `ip` to `name`: in the last
/// well-formed block (mark, opening line, entries, closing line), every entry
/// for `ip` is replaced by `ip name`, placed last; with no such block, one
/// holding only that entry is appended after an empty line.
pub open spec fn hosts_update(lines: Seq<Seq<char>>, ip: Seq<char>, name: Seq<char>) -> Seq<
    Seq<char>,
> {
    let entry = ip + seq![' '] + name;
    let m = find_last(lines, mark_line(), lines.len() as int);
    let c = find_from(lines, close_line(), m + 2);
    if m >= 0 && m + 1 < lines.len() && lines[m + 1] == open_line() && c < lines.len() {
        lines.take(m + 2) + lines.subrange(m + 2, c).filter(|l: Seq<char>| !names_ip(l, ip))
            + seq![entry] + lines.skip(c)
    } else {
        lines + seq![Seq::<char>::empty(), mark_line(), open_line(), entry, close_line()]
    }
}

proof fn lemma_find_last_is(s: Seq<Seq<char>>, t: Seq<char>, end: int, x: int)
    requires
        0 <= x < end <= s.len(),
        s[x] == t,
        forall|j: int| x < j < end ==> s[j] != t,
    ensures
        find_last(s, t, end) == x,
    decreases end,
{
    if end - 1 != x {
        lemma_find_last_is(s, t, end - 1, x);
    }
}

proof fn lemma_find_last_facts(s: Seq<Seq<char>>, t: Seq<char>, end: int)
    requires
        0 <= end <= s.len(),
    ensures
        -1 <= find_last(s, t, end) < end,
        find_last(s, t, end) >= 0 ==> s[find_last(s, t, end)] == t,
        forall|j: int| find_last(s, t, end) < j < end ==> s[j] != t,
    decreases end,
{
    if end > 0 {
        lemma_find_last_facts(s, t, end - 1);
    }
}

proof fn lemma_find_from_is(s: Seq<Seq<char>>, t: Seq<char>, start: int, x: int)
    requires
        0 <= start <= x < s.len(),
        s[x] == t,
        forall|j: int| start <= j < x ==> s[j] != t,
    ensures
        find_from(s, t, start) == x,
    decreases x - start,
{
    if start < x {
        lemma_find_from_is(s, t, start + 1, x);
    }
}

proof fn lemma_find_from_facts(s: Seq<Seq<char>>, t: Seq<char>, start: int)
    requires
        0 <= start,
    ensures
        find_from(s, t, start) < s.len() ==> start <= find_from(s, t, start) && s[find_from(
            s,
            t,
            start,
        )] == t,
        find_from(s, t, start) <= s.len(),
        forall|j: int| start <= j < find_from(s, t, start) ==> s[j] != t,
    decreases s.len() - start,
{
    if start < s.len() {
        lemma_find_from_facts(s, t, start + 1);
    }
}

proof fn lemma_filter_avoids(s: Seq<Seq<char>>, pred: spec_fn(Seq<char>) -> bool, t: Seq<char>)
    requires
        forall|i: int| 0 <= i < s.len() ==> s[i] != t,
    ensures
        forall|i: int| 0 <= i < s.filter(pred).len() ==> s.filter(pred)[i] != t,
    decreases s.len(),
{
    reveal(Seq::filter);
    if s.len() > 0 {
        let d = s.drop_last();
        assert forall|i: int| 0 <= i < d.len() implies d[i] != t by {
            assert(d[i] == s[i]);
        }
        lemma_filter_avoids(d, pred, t);
        assert(s.last() == s[s.len() - 1]);
        assert forall|i: int| 0 <= i < s.filter(pred).len() implies s.filter(pred)[i] != t by {
            if i < d.filter(pred).len() {
                if pred(s.last()) {
                    assert(s.filter(pred)[i] == d.filter(pred)[i]);
                }
            }
        }
    }
}

proof fn lemma_filter_keeps_all(s: Seq<Seq<char>>, pred: spec_fn(Seq<char>) -> bool)
    requires
        forall|i: int| 0 <= i < s.len() ==> pred(s[i]),
    ensures
        s.filter(pred) == s,
    decreases s.len(),
{
    reveal(Seq::filter);
    if s.len() > 0 {
        let d = s.drop_last();
        assert forall|i: int| 0 <= i < d.len() implies pred(d[i]) by {
            assert(d[i] == s[i]);
        }
        lemma_filter_keeps_all(d, pred);
        assert(s.filter(pred) =~= s);
    }
}

/// Mapping an address to a name twice in a row gives the lines that the
/// first mapping gave: updating the hosts file is idempotent.
pub proof fn lemma_hosts_update_idempotent(lines: Seq<Seq<char>>, ip: Seq<char>, name: Seq<char>)
    requires
        ip.len() > 0,
        ip[0] != '#',
    ensures
        hosts_update(hosts_update(lines, ip, name), ip, name) == hosts_update(lines, ip, name),
{
    reveal_strlit("# autogenerated by flota");
    reveal_strlit("# >>>>");
    reveal_strlit("# <<<<");
    let entry = ip + seq![' '] + name;
    assert(entry[0] == ip[0]);
    assert(entry != mark_line() && entry != open_line() && entry != close_line());
    assert(entry.take(ip.len() as int) =~= ip);
    assert(names_ip(entry, ip));
    let pred = |l: Seq<char>| !names_ip(l, ip);
    assert(mark_line().len() == 24 && open_line().len() == 6 && close_line().len() == 6);
    assert(open_line() != mark_line() && close_line() != mark_line());
    assert(Seq::<Seq<char>>::empty().filter(pred) =~= Seq::<Seq<char>>::empty()) by {
        reveal(Seq::filter);
    }
    assert(seq![entry].filter(pred) =~= Seq::<Seq<char>>::empty()) by {
        reveal(Seq::filter);
        assert(seq![entry].drop_last() =~= Seq::<Seq<char>>::empty());
        assert(seq![entry].last() == entry);
    }
    let l1 = hosts_update(lines, ip, name);
    let n = lines.len() as int;
    let m = find_last(lines, mark_line(), n);
    let c = find_from(lines, close_line(), m + 2);
    lemma_find_last_facts(lines, mark_line(), n);
    if m >= 0 && m + 1 < n && lines[m + 1] == open_line() && c < n {
        lemma_find_from_facts(lines, close_line(), m + 2);
        let mid = lines.subrange(m + 2, c);
        let f = mid.filter(pred);
        assert forall|i: int| 0 <= i < mid.len() implies mid[i] != mark_line() by {
            assert(mid[i] == lines[m + 2 + i]);
        }
        assert forall|i: int| 0 <= i < mid.len() implies mid[i] != close_line() by {
            assert(mid[i] == lines[m + 2 + i]);
        }
        lemma_filter_avoids(mid, pred, mark_line());
        lemma_filter_avoids(mid, pred, close_line());
        assert forall|i: int| 0 <= i < f.len() implies pred(f[i]) by {
            mid.lemma_filter_pred(pred, i);
        }
        let fl = f.len();
        let c1 = m + 2 + fl + 1;
        assert(l1 == lines.take(m + 2) + f + seq![entry] + lines.skip(c));
        assert(l1.len() == n - c + c1);
        assert forall|j: int| m < j < l1.len() implies l1[j] != mark_line() by {
            if j == m + 1 {
            } else if j < m + 2 + fl {
                assert(l1[j] == f[j - m - 2]);
            } else if j == m + 2 + fl {
            } else {
                assert(l1[j] == lines[j - c1 + c]);
            }
        }
        assert(l1[m] == lines[m]);
        lemma_find_last_is(l1, mark_line(), l1.len() as int, m);
        assert(l1[m + 1] == open_line());
        assert forall|j: int| m + 2 <= j < c1 implies l1[j] != close_line() by {
            if j < m + 2 + fl {
                assert(l1[j] == f[j - m - 2]);
            }
        }
        assert(l1[c1] == lines[c]);
        lemma_find_from_is(l1, close_line(), m + 2, c1);
        let mid1 = l1.subrange(m + 2, c1);
        assert(mid1 =~= f + seq![entry]);
        Seq::filter_distributes_over_add(f, seq![entry], pred);
        lemma_filter_keeps_all(f, pred);
        assert(mid1.filter(pred) =~= f);
        assert(l1.take(m + 2) =~= lines.take(m + 2));
        assert(l1.skip(c1) =~= lines.skip(c));
        assert(hosts_update(l1, ip, name) =~= l1);
    } else {
        let tail = seq![Seq::<char>::empty(), mark_line(), open_line(), entry, close_line()];
        assert(l1 == lines + tail);
        let m1 = n + 1;
        assert forall|j: int| m1 < j < l1.len() implies l1[j] != mark_line() by {
            assert(l1[j] == tail[j - n]);
        }
        assert(l1[m1] == tail[1]);
        assert(l1[m1 + 1] == tail[2]);
        assert(l1[n + 3] == tail[3]);
        assert(l1[n + 4] == tail[4]);
        lemma_find_last_is(l1, mark_line(), l1.len() as int, m1);
        lemma_find_from_is(l1, close_line(), m1 + 2, n + 4);
        let mid1 = l1.subrange(m1 + 2, n + 4);
        assert(mid1 =~= seq![entry]);
        assert(l1.take(m1 + 2) =~= lines + seq![Seq::<char>::empty(), mark_line(), open_line()]);
        assert(l1.skip(n + 4) =~= seq![close_line()]);
        assert(hosts_update(l1, ip, name) =~= l1);
    }
}

fn line_names_ip(line: &String, ip: &Vec<char>) -> (r: bool)
    ensures
        r == names_ip(line@, ip@),
{
    let l = chars_of(line.as_str());
    let n = ip.len();
    if l.len() < n {
        return false;
    }
    let mut i: usize = 0;
    while i < n
        invariant
            n == ip@.len(),
            l@ == line@,
            l@.len() >= n,
            0 <= i <= n,
            forall|j: int| 0 <= j < i ==> l@[j] == ip@[j],
        decreases n - i,
    {
        if l[i] != ip[i] {
            assert(l@.take(n as int)[i as int] != ip@[i as int]);
            return false;
        }
        i += 1;
    }
    assert(l@.take(n as int) =~= ip@);
    l.len() == n || l[n] == ' ' || l[n] == '\t'
}

fn copy_lines(lines: &Vec<String>, from: usize, to: usize, out: &mut Vec<String>)
    requires
        from <= to <= lines@.len(),
    ensures
        strings_view(final(out)@) == strings_view(old(out)@) + strings_view(lines@).subrange(
            from as int,
            to as int,
        ),
{
    let ghost start = strings_view(out@);
    let mut i: usize = from;
    while i < to
        invariant
            from <= i <= to <= lines@.len(),
            strings_view(out@) == start + strings_view(lines@).subrange(from as int, i as int),
        decreases to - i,
    {
        let ghost prev = out@;
        out.push(lines[i].clone());
        assert(strings_view(out@) =~= strings_view(prev).push(lines@[i as int]@));
        i += 1;
        assert(strings_view(out@) =~= start + strings_view(lines@).subrange(from as int, i as int));
    }
}

fn last_mark(lines: &Vec<String>) -> (r: Option<usize>)
    ensures
        r matches Some(x) ==> x < lines@.len() && find_last(
            strings_view(lines@),
            mark_line(),
            lines@.len() as int,
        ) == x,
        r is None ==> find_last(strings_view(lines@), mark_line(), lines@.len() as int) == -1,
{
    proof {
        reveal_strlit("# autogenerated by flota");
    }
    let ghost v = strings_view(lines@);
    let n = lines.len();
    let mut k: usize = n;
    let mut m: Option<usize> = None;
    while k > 0 && m.is_none()
        invariant
            n == lines@.len(),
            v == strings_view(lines@),
            k <= n,
            m is None ==> find_last(v, mark_line(), n as int) == find_last(v, mark_line(), k as int),
            m matches Some(x) ==> find_last(v, mark_line(), n as int) == x && x < n,
        decreases k,
    {
        if text_is(lines[k - 1].as_str(), "# autogenerated by flota") {
            assert(v[k - 1] == mark_line());
            m = Some(k - 1);
        } else {
            assert(v[k - 1] != mark_line());
        }
        k -= 1;
    }
    m
}

/// The well-formed block that starts at the last mark line, as the
/// positions of its mark and closing lines.
fn find_block(lines: &Vec<String>) -> (r: Option<(usize, usize)>)
    ensures
        ({
            let v = strings_view(lines@);
            let m = find_last(v, mark_line(), v.len() as int);
            let c = find_from(v, close_line(), m + 2);
            let found = m >= 0 && m + 1 < v.len() && v[m + 1] == open_line() && c < v.len();
            &&& r is None <==> !found
            &&& r matches Some((x, y)) ==> x == m && y == c && x + 2 <= y < v.len()
        }),
{
    proof {
        reveal_strlit("# >>>>");
        reveal_strlit("# <<<<");
    }
    let ghost v = strings_view(lines@);
    let n = lines.len();
    match last_mark(lines) {
        None => None,
        Some(m) => {
            if m + 1 < n && text_is(lines[m + 1].as_str(), "# >>>>") {
                assert(v[m + 1] == open_line());
                let mut c: usize = m + 2;
                while c < n && !text_is(lines[c].as_str(), "# <<<<")
                    invariant
                        n == lines@.len(),
                        v == strings_view(lines@),
                        m + 2 <= c <= n,
                        find_from(v, close_line(), m + 2) == find_from(
                            v,
                            close_line(),
                            c as int,
                        ),
                    decreases n - c,
                {
                    assert(v[c as int] != close_line());
                    c += 1;
                }
                if c < n {
                    assert(v[c as int] == close_line());
                    Some((m, c))
                } else {
                    None
                }
            } else {
                if m + 1 < n {
                    assert(v[m + 1] != open_line());
                }
                None
            }
        },
    }
}

fn keep_other_entries(
    lines: &Vec<String>,
    from: usize,
    to: usize,
    ip_text: &Vec<char>,
    out: &mut Vec<String>,
)
    requires
        from <= to <= lines@.len(),
    ensures
        strings_view(final(out)@) == strings_view(old(out)@) + strings_view(lines@).subrange(
            from as int,
            to as int,
        ).filter(|l: Seq<char>| !names_ip(l, ip_text@)),
{
    let ghost v = strings_view(lines@);
    let ghost pred = |l: Seq<char>| !names_ip(l, ip_text@);
    let ghost head = strings_view(out@);
    let mut i: usize = from;
    while i < to
        invariant
            from <= i <= to <= lines@.len(),
            v == strings_view(lines@),
            pred == (|l: Seq<char>| !names_ip(l, ip_text@)),
            strings_view(out@) == head + v.subrange(from as int, i as int).filter(pred),
        decreases to - i,
    {
        let ghost before = v.subrange(from as int, i as int);
        assert(v.subrange(from as int, i + 1) =~= before.push(v[i as int]));
        assert(before.push(v[i as int]).drop_last() =~= before);
        proof {
            reveal(Seq::filter);
        }
        if !line_names_ip(&lines[i], ip_text) {
            let ghost prev = out@;
            out.push(lines[i].clone());
            assert(strings_view(out@) =~= strings_view(prev).push(v[i as int]));
        }
        i += 1;
    }
}

/// Maps `ip` to `hostname` in the autogenerated block of the hosts file
/// whose lines are `lines`; gives the new lines.
pub fn update_etc_hosts(lines: &Vec<String>, ip: &IPv4, hostname: &str) -> (r: Vec<String>)
    ensures
        strings_view(r@) == hosts_update(
            strings_view(lines@),
            octets_text(ip.addr_spec(), '.'),
            hostname@,
        ),
{
    proof {
        reveal_strlit("# autogenerated by flota");
        reveal_strlit("# >>>>");
        reveal_strlit("# <<<<");
    }
    let ghost v = strings_view(lines@);
    let ip_text = chars_of(ip.ip().as_str());
    let mut entry_chars = chars_of(ip.ip().as_str());
    entry_chars.push(' ');
    push_str(&mut entry_chars, hostname);
    let entry = string_of(&entry_chars);
    assert(entry@ =~= ip_text@ + seq![' '] + hostname@);
    let n = lines.len();
    let mut out: Vec<String> = Vec::new();
    match find_block(lines) {
        Some((m, c)) => {
            copy_lines(lines, 0, m + 2, &mut out);
            assert(v.subrange(0, m + 2) =~= v.take(m + 2));
            keep_other_entries(lines, m + 2, c, &ip_text, &mut out);
            let ghost prev = out@;
            out.push(entry);
            assert(strings_view(out@) =~= strings_view(prev).push(entry@));
            copy_lines(lines, c, n, &mut out);
            assert(v.subrange(c as int, n as int) =~= v.skip(c as int));
            assert(strings_view(out@) =~= hosts_update(v, ip_text@, hostname@));
            out
        },
        None => {
            copy_lines(lines, 0, n, &mut out);
            assert(v.subrange(0, n as int) =~= v);
            let ghost prev = out@;
            let e0 = String::new();
            let e1 = string_of(&chars_of("# autogenerated by flota"));
            let e2 = string_of(&chars_of("# >>>>"));
            let e4 = string_of(&chars_of("# <<<<"));
            out.push(e0);
            out.push(e1);
            out.push(e2);
            out.push(entry);
            out.push(e4);
            assert(strings_view(out@) =~= strings_view(prev) + seq![
                Seq::<char>::empty(),
                mark_line(),
                open_line(),
                ip_text@ + seq![' '] + hostname@,
                close_line(),
            ]);
            assert(strings_view(out@) =~= hosts_update(v, ip_text@, hostname@));
            out
        },
    }
}

} // verus!

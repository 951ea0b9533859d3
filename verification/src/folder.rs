//! Pairing the files of a tape folder: each kind's header file with its data file.

use vstd::prelude::*;

use vstd::seq_lib::{lemma_multiset_commutative, group_to_multiset_ensures};

verus! {

/// `pat` occurs in `s` at position `i`.
pub open spec fn text_at(s: Seq<char>, pat: Seq<char>, i: int) -> bool {
    0 <= i && i + pat.len() <= s.len() && s.subrange(i, i + pat.len()) == pat
}

/// `pat` occurs somewhere in `s`.
pub open spec fn has_text(s: Seq<char>, pat: Seq<char>) -> bool {
    exists|i: int| #[trigger] text_at(s, pat, i)
}

/// Text order: character by character by code point, a prefix first.
pub open spec fn text_le(a: Seq<char>, b: Seq<char>) -> bool
    decreases a.len(),
{
    if a.len() == 0 {
        true
    } else if b.len() == 0 {
        false
    } else if (a[0] as u32) < (b[0] as u32) {
        true
    } else if (a[0] as u32) > (b[0] as u32) {
        false
    } else {
        text_le(a.drop_first(), b.drop_first())
    }
}

pub proof fn lemma_text_le_total(a: Seq<char>, b: Seq<char>)
    ensures
        text_le(a, b) || text_le(b, a),
    decreases a.len(),
{
    if a.len() > 0 && b.len() > 0 && (a[0] as u32) == (b[0] as u32) {
        lemma_text_le_total(a.drop_first(), b.drop_first());
    }
}

pub proof fn lemma_text_le_refl(a: Seq<char>)
    ensures
        text_le(a, a),
    decreases a.len(),
{
    if a.len() > 0 {
        lemma_text_le_refl(a.drop_first());
    }
}

pub proof fn lemma_text_le_trans(a: Seq<char>, b: Seq<char>, c: Seq<char>)
    requires
        text_le(a, b),
        text_le(b, c),
    ensures
        text_le(a, c),
    decreases a.len(),
{
    if a.len() > 0 && b.len() > 0 && c.len() > 0 && (a[0] as u32) == (b[0] as u32) && (b[0] as u32) == (c[0] as u32) {
        lemma_text_le_trans(a.drop_first(), b.drop_first(), c.drop_first());
    }
}

/// Texts in order.
pub open spec fn texts_sorted(s: Seq<Seq<char>>) -> bool {
    forall|i: int, j: int| 0 <= i < j < s.len() ==> text_le(#[trigger] s[i], #[trigger] s[j])
}

pub open spec fn texts(s: Seq<String>) -> Seq<Seq<char>> {
    s.map_values(|x: String| x@)
}

fn chars_of(s: &str) -> (res: Vec<char>)
    ensures
        res@ == s@,
{
    let n = s.unicode_len();
    let mut out: Vec<char> = Vec::new();
    let mut i: usize = 0;
    while i < n
        invariant
            n == s@.len(),
            i <= n,
            out@ == s@.subrange(0, i as int),
        decreases n - i,
    {
        out.push(s.get_char(i));
        proof {
            assert(s@.subrange(0, i + 1) =~= s@.subrange(0, i as int).push(s@[i as int]));
        }
        i = i + 1;
    }
    assert(s@.subrange(0, n as int) =~= s@);
    out
}

fn contains_text(s: &Vec<char>, pat: &Vec<char>) -> (res: bool)
    ensures
        res == has_text(s@, pat@),
{
    let n = s.len();
    let m = pat.len();
    if m > n {
        assert forall|i: int| !text_at(s@, pat@, i) by {}
        return false;
    }
    let mut i: usize = 0;
    while i <= n - m
        invariant
            n == s@.len(),
            m == pat@.len(),
            m <= n,
            i <= n - m + 1,
            forall|k: int| 0 <= k < i ==> !#[trigger] text_at(s@, pat@, k),
        decreases n - m + 1 - i,
    {
        let mut j: usize = 0;
        while j < m && s[i + j] == pat[j]
            invariant
                n == s@.len(),
                m == pat@.len(),
                i + m <= n,
                j <= m,
                forall|k: int| 0 <= k < j ==> s@[i + k] == pat@[k],
            decreases m - j,
        {
            j = j + 1;
        }
        if j == m {
            assert(s@.subrange(i as int, i + m) =~= pat@);
            assert(text_at(s@, pat@, i as int));
            return true;
        }
        assert(s@.subrange(i as int, i + m)[j as int] != pat@[j as int]);
        assert(!text_at(s@, pat@, i as int));
        i = i + 1;
    }
    assert forall|k: int| !text_at(s@, pat@, k) by {
        if 0 <= k < i {
        }
    }
    false
}

fn text_le_exec(a: &Vec<char>, b: &Vec<char>) -> (res: bool)
    ensures
        res == text_le(a@, b@),
{
    let mut i: usize = 0;
    assert(a@.subrange(0, a@.len() as int) =~= a@);
    assert(b@.subrange(0, b@.len() as int) =~= b@);
    while i < a.len() && i < b.len() && (a[i] as u32) == (b[i] as u32)
        invariant
            i <= a@.len(),
            i <= b@.len(),
            text_le(a@, b@) == text_le(a@.subrange(i as int, a@.len() as int), b@.subrange(i as int, b@.len() as int)),
        decreases a@.len() - i,
    {
        proof {
            let x = a@.subrange(i as int, a@.len() as int);
            let y = b@.subrange(i as int, b@.len() as int);
            assert(x.drop_first() =~= a@.subrange(i + 1, a@.len() as int));
            assert(y.drop_first() =~= b@.subrange(i + 1, b@.len() as int));
        }
        i = i + 1;
    }
    proof {
        let x = a@.subrange(i as int, a@.len() as int);
        let y = b@.subrange(i as int, b@.len() as int);
        if i < a.len() && i < b.len() {
            assert(x[0] == a@[i as int] && y[0] == b@[i as int]);
        }
    }
    if i == a.len() {
        true
    } else if i == b.len() {
        false
    } else {
        (a[i] as u32) < (b[i] as u32)
    }
}

/// Orders texts.
pub fn sort_texts(v: &Vec<String>) -> (res: Vec<String>)
    ensures
        texts_sorted(texts(res@)),
        texts(res@).to_multiset() == texts(v@).to_multiset(),
{
    let mut out: Vec<String> = Vec::new();
    let mut i: usize = 0;
    assert(texts(v@.subrange(0, 0)) =~= Seq::<Seq<char>>::empty());
    assert(texts(out@) =~= Seq::<Seq<char>>::empty());
    while i < v.len()
        invariant
            i <= v@.len(),
            texts_sorted(texts(out@)),
            texts(out@).to_multiset() == texts(v@.subrange(0, i as int)).to_multiset(),
        decreases v@.len() - i,
    {
        let x = v[i].clone();
        let xc = chars_of(x.as_str());
        let mut pos: usize = 0;
        while pos < out.len() && text_le_exec(&chars_of(out[pos].as_str()), &xc)
            invariant
                pos <= out@.len(),
                xc@ == x@,
                forall|k: int| 0 <= k < pos ==> text_le(#[trigger] out@[k]@, x@),
            decreases out@.len() - pos,
        {
            pos = pos + 1;
        }
        let ghost before = texts(out@);
        proof {
            if pos < out@.len() {
                lemma_text_le_total(out@[pos as int]@, x@);
            }
        }
        out.insert(pos, x);
        proof {
            let after = texts(out@);
            assert(after =~= before.insert(pos as int, x@));
            assert forall|a: int, b: int| 0 <= a < b < after.len() implies text_le(#[trigger] after[a], #[trigger] after[b]) by {
                if b < pos {
                    assert(after[a] == before[a] && after[b] == before[b]);
                } else if b == pos {
                    assert(after[a] == before[a]);
                } else if a < pos {
                    assert(after[a] == before[a] && after[b] == before[b - 1]);
                    lemma_text_le_refl(before[pos as int]);
                    if b - 1 > pos {
                        assert(text_le(before[pos as int], before[b - 1]));
                    }
                    assert(text_le(before[a], x@));
                    assert(text_le(x@, before[pos as int]));
                    lemma_text_le_trans(x@, before[pos as int], before[b - 1]);
                    lemma_text_le_trans(before[a], x@, before[b - 1]);
                } else if a == pos {
                    assert(after[b] == before[b - 1]);
                    lemma_text_le_refl(before[pos as int]);
                    if b - 1 > pos {
                        assert(text_le(before[pos as int], before[b - 1]));
                    }
                    lemma_text_le_trans(x@, before[pos as int], before[b - 1]);
                } else {
                    assert(after[a] == before[a - 1] && after[b] == before[b - 1]);
                }
            }
            let pre = before.subrange(0, pos as int);
            let post = before.subrange(pos as int, before.len() as int);
            assert(before =~= pre + post);
            assert(after =~= pre.push(x@) + post);
            lemma_multiset_commutative(pre, post);
            lemma_multiset_commutative(pre.push(x@), post);
            broadcast use group_to_multiset_ensures;
            assert(v@.subrange(0, i + 1) =~= v@.subrange(0, i as int).push(v@[i as int]));
            assert(texts(v@.subrange(0, i + 1)) =~= texts(v@.subrange(0, i as int)).push(x@));
        }
        i = i + 1;
    }
    assert(v@.subrange(0, v@.len() as int) =~= v@);
    out
}


/// The texts that contain `pat` (or that do not, when `want` is false), in order.
pub open spec fn keep_texts(s: Seq<Seq<char>>, pat: Seq<char>, want: bool) -> Seq<Seq<char>>
    decreases s.len(),
{
    if s.len() == 0 {
        Seq::empty()
    } else if has_text(s.last(), pat) == want {
        keep_texts(s.drop_last(), pat, want).push(s.last())
    } else {
        keep_texts(s.drop_last(), pat, want)
    }
}

/// The first position from `j` whose text contains `pat`; the length when none does.
pub open spec fn first_with_text(s: Seq<Seq<char>>, pat: Seq<char>, j: int) -> int
    decreases s.len() - j,
{
    if j < 0 || j >= s.len() || has_text(s[j], pat) {
        j
    } else {
        first_with_text(s, pat, j + 1)
    }
}

/// The first position from `j` holding a dot; the length when there is none.
pub open spec fn dot_index(s: Seq<char>, j: int) -> int
    decreases s.len() - j,
{
    if j < 0 || j >= s.len() || s[j] == '.' {
        j
    } else {
        dot_index(s, j + 1)
    }
}

/// The kind a data file holds: its name up to the first dot; none when the name has no dot.
pub open spec fn kind_of(name: Seq<char>) -> Option<Seq<char>> {
    if dot_index(name, 0) < name.len() {
        Some(name.subrange(0, dot_index(name, 0)))
    } else {
        None
    }
}

pub open spec fn opt_text(s: Option<String>) -> Option<Seq<char>> {
    match s {
        Some(x) => Some(x@),
        None => None,
    }
}

/// How the files of a folder pair up: the header files (names holding ".header.riv") and the
/// data files (the others), each in name order; the game date index among the data files
/// (the first holding ".dates.riv."), when asked for; and, for each position of the shorter
/// list, the kind (the data file's name up to its first dot, none when it has no dot), the
/// header file and the data file.
pub struct FolderPlan {
    pub dates: Option<String>,
    pub headers: Vec<String>,
    pub mains: Vec<String>,
    pub entries: Vec<(Option<String>, String, String)>,
}

fn split_by_text(names: &Vec<String>, pat: &Vec<char>) -> (res: (Vec<String>, Vec<String>))
    ensures
        texts(res.0@) == keep_texts(texts(names@), pat@, true),
        texts(res.1@) == keep_texts(texts(names@), pat@, false),
{
    let mut yes: Vec<String> = Vec::new();
    let mut no: Vec<String> = Vec::new();
    let mut i: usize = 0;
    assert(texts(names@.subrange(0, 0)) =~= Seq::<Seq<char>>::empty());
    assert(texts(yes@) =~= Seq::<Seq<char>>::empty());
    while i < names.len()
        invariant
            i <= names@.len(),
            texts(yes@) == keep_texts(texts(names@.subrange(0, i as int)), pat@, true),
            texts(no@) == keep_texts(texts(names@.subrange(0, i as int)), pat@, false),
        decreases names@.len() - i,
    {
        let name = names[i].clone();
        let c = chars_of(name.as_str());
        let found = contains_text(&c, pat);
        proof {
            let pre = texts(names@.subrange(0, i + 1));
            assert(pre =~= texts(names@.subrange(0, i as int)).push(name@));
            assert(pre.drop_last() =~= texts(names@.subrange(0, i as int)));
        }
        let ghost y0 = texts(yes@);
        let ghost n0 = texts(no@);
        if found {
            yes.push(name);
            assert(texts(yes@) =~= y0.push(names@[i as int]@));
        } else {
            no.push(name);
            assert(texts(no@) =~= n0.push(names@[i as int]@));
        }
        i = i + 1;
    }
    assert(names@.subrange(0, names@.len() as int) =~= names@);
    (yes, no)
}

fn kind_text(name: &String) -> (res: Option<String>)
    ensures
        opt_text(res) == kind_of(name@),
{
    let c = chars_of(name.as_str());
    let mut j: usize = 0;
    while j < c.len() && c[j] != '.'
        invariant
            j <= c@.len(),
            c@ == name@,
            dot_index(name@, 0) == dot_index(name@, j as int),
        decreases c@.len() - j,
    {
        j = j + 1;
    }
    if j < c.len() {
        let s = name.as_str().substring_char(0, j);
        Some(String::from_str(s))
    } else {
        None
    }
}

/// Plans how the files of a folder pair up (see `FolderPlan`).
pub fn plan_folder(names: &Vec<String>, find_dates: bool) -> (res: FolderPlan)
    ensures
        ({
            let all = texts(names@);
            let hs = keep_texts(all, ".header.riv"@, true);
            let os = keep_texts(all, ".header.riv"@, false);
            let d = if find_dates { first_with_text(os, ".dates.riv."@, 0) } else { os.len() as int };
            let ms = if d < os.len() { os.remove(d) } else { os };
            &&& opt_text(res.dates) == (if d < os.len() { Some(os[d]) } else { None })
            &&& texts_sorted(texts(res.headers@))
            &&& texts(res.headers@).to_multiset() == hs.to_multiset()
            &&& texts_sorted(texts(res.mains@))
            &&& texts(res.mains@).to_multiset() == ms.to_multiset()
            &&& res.entries@.len() == (if res.headers@.len() < res.mains@.len() { res.headers@.len() } else { res.mains@.len() })
            &&& forall|i: int| 0 <= i < res.entries@.len() ==> {
                &&& opt_text(#[trigger] res.entries@[i].0) == kind_of(res.mains@[i]@)
                &&& res.entries@[i].1@ == res.headers@[i]@
                &&& res.entries@[i].2@ == res.mains@[i]@
            }
        }),
{
    let header_mark = chars_of(".header.riv");
    let dates_mark = chars_of(".dates.riv.");
    let (headers, mut others) = split_by_text(names, &header_mark);
    let ghost os = texts(others@);
    let mut dates: Option<String> = None;
    if find_dates {
        let mut j: usize = 0;
        let mut found = false;
        while j < others.len() && !found
            invariant
                j <= others@.len(),
                os == texts(others@),
                !found ==> first_with_text(os, dates_mark@, 0) == first_with_text(os, dates_mark@, j as int),
                found ==> j >= 1 && first_with_text(os, dates_mark@, 0) == j - 1,
            decreases others@.len() - j + (if found { 0int } else { 1int }),
        {
            let c = chars_of(others[j].as_str());
            if contains_text(&c, &dates_mark) {
                found = true;
            }
            j = j + 1;
        }
        if found {
            let d = others.remove(j - 1);
            proof {
                assert(texts(others@) =~= os.remove(j - 1));
            }
            dates = Some(d);
        }
    }
    let hs = sort_texts(&headers);
    let ms = sort_texts(&others);
    let n = if hs.len() < ms.len() { hs.len() } else { ms.len() };
    let mut entries: Vec<(Option<String>, String, String)> = Vec::new();
    let mut i: usize = 0;
    while i < n
        invariant
            i <= n,
            n <= hs@.len(),
            n <= ms@.len(),
            entries@.len() == i,
            forall|k: int| 0 <= k < i ==> {
                &&& opt_text(#[trigger] entries@[k].0) == kind_of(ms@[k]@)
                &&& entries@[k].1@ == hs@[k]@
                &&& entries@[k].2@ == ms@[k]@
            },
        decreases n - i,
    {
        let kind = kind_text(&ms[i]);
        entries.push((kind, hs[i].clone(), ms[i].clone()));
        i = i + 1;
    }
    FolderPlan { dates, headers: hs, mains: ms, entries }
}

} // verus!

use vstd::prelude::*;
use crate::unicode::{chars_of, lowercase, string_from_chars, to_lowercase};

verus! {

broadcast use vstd::seq::group_seq_axioms;

/// `hay[i..]` starts with `needle`.
pub open spec fn starts_with_at(hay: Seq<char>, needle: Seq<char>, i: int) -> bool {
    0 <= i && i + needle.len() <= hay.len() && hay.subrange(i, i + needle.len()) == needle
}

/// The first position in `[lo, hi)` at which `hay` starts with `needle`.
pub open spec fn first_match_in(hay: Seq<char>, needle: Seq<char>, lo: int, hi: int) -> Option<int>
    decreases hi - lo,
{
    if lo >= hi {
        None
    } else if starts_with_at(hay, needle, lo) {
        Some(lo)
    } else {
        first_match_in(hay, needle, lo + 1, hi)
    }
}

/// The last position in `[lo, hi)` at which `hay` starts with `needle`.
pub open spec fn last_match_in(hay: Seq<char>, needle: Seq<char>, lo: int, hi: int) -> Option<int>
    decreases hi - lo,
{
    if lo >= hi {
        None
    } else if starts_with_at(hay, needle, hi - 1) {
        Some(hi - 1)
    } else {
        last_match_in(hay, needle, lo, hi - 1)
    }
}

/// Where a search lands: searching down, the first match at or after `start`,
/// wrapping round to the first match before it; searching up, the last match
/// before `start`, wrapping round to the last match at or after it. The match is
/// reported as a start and an end `nlen` further on.
pub open spec fn spec_find(hay: Seq<char>, needle: Seq<char>, nlen: int, start: int, down: bool) -> Option<
    (int, int),
> {
    let found = if down {
        match first_match_in(hay, needle, start, hay.len() as int) {
            Some(i) => Some(i),
            None => first_match_in(hay, needle, 0, start),
        }
    } else {
        match last_match_in(hay, needle, 0, start) {
            Some(i) => Some(i),
            None => last_match_in(hay, needle, start, hay.len() as int),
        }
    };
    match found {
        Some(i) => Some((i, i + nlen)),
        None => None,
    }
}

/// The inputs on which the search neither reads past the end of the haystack
/// nor computes an end beyond `usize::MAX`.
pub open spec fn find_defined(hay: Seq<char>, needle: Seq<char>, nlen: int, start: int, down: bool) -> bool {
    &&& hay.len() + nlen <= usize::MAX
    &&& start <= hay.len() + 1 || (down && first_match_in(hay, needle, 0, (hay.len() + 1) as int) is Some)
}

/// An optional index, as an integer.
pub open spec fn opt_pair(o: Option<(usize, usize)>) -> Option<(int, int)> {
    match o {
        Some((a, b)) => Some((a as int, b as int)),
        None => None,
    }
}

proof fn lemma_first_match_in(hay: Seq<char>, needle: Seq<char>, lo: int, hi: int)
    ensures
        first_match_in(hay, needle, lo, hi) matches Some(k) ==> {
            &&& lo <= k < hi
            &&& starts_with_at(hay, needle, k)
            &&& forall|j: int| lo <= j < k ==> !starts_with_at(hay, needle, j)
        },
        first_match_in(hay, needle, lo, hi) is None ==> forall|j: int|
            lo <= j < hi ==> !starts_with_at(hay, needle, j),
    decreases hi - lo,
{
    if lo < hi {
        lemma_first_match_in(hay, needle, lo + 1, hi);
    }
}

proof fn lemma_first_match_is(hay: Seq<char>, needle: Seq<char>, lo: int, hi: int, k: int)
    requires
        lo <= k < hi,
        starts_with_at(hay, needle, k),
        forall|j: int| lo <= j < k ==> !starts_with_at(hay, needle, j),
    ensures
        first_match_in(hay, needle, lo, hi) == Some(k),
    decreases k - lo,
{
    if lo < k {
        lemma_first_match_is(hay, needle, lo + 1, hi, k);
    }
}

proof fn lemma_first_match_none(hay: Seq<char>, needle: Seq<char>, lo: int, hi: int)
    requires
        forall|j: int| lo <= j < hi ==> !starts_with_at(hay, needle, j),
    ensures
        first_match_in(hay, needle, lo, hi) is None,
    decreases hi - lo,
{
    if lo < hi {
        lemma_first_match_none(hay, needle, lo + 1, hi);
    }
}

/// Whether `hay[i..]` starts with `needle`.
pub fn starts_with_at_exec(hay: &[char], needle: &[char], i: usize) -> (b: bool)
    requires
        i <= hay@.len(),
    ensures
        b == starts_with_at(hay@, needle@, i as int),
{
    if needle.len() > hay.len() - i {
        return false;
    }
    let mut k: usize = 0;
    while k < needle.len()
        invariant
            i + needle@.len() <= hay@.len(),
            k <= needle@.len(),
            forall|j: int| 0 <= j < k ==> hay@[i + j] == needle@[j],
        decreases needle@.len() - k,
    {
        assert(i + k < hay.len());
        let j: usize = i + k;
        if hay[j] != needle[k] {
            assert(hay@.subrange(i as int, i + needle@.len())[k as int] != needle@[k as int]);
            return false;
        }
        k = k + 1;
    }
    assert(hay@.subrange(i as int, i + needle@.len()) =~= needle@);
    true
}

/// Searches `hay` for `needle` as `spec_find` describes, reporting a match as
/// its start and its start plus `needle_len`.
pub fn find_in_chars(hay: &[char], needle: &[char], needle_len: usize, start: usize, search_down: bool) -> (r:
    Option<(usize, usize)>)
    requires
        find_defined(hay@, needle@, needle_len as int, start as int, search_down),
    ensures
        opt_pair(r) == spec_find(hay@, needle@, needle_len as int, start as int, search_down),
{
    let hlen = hay.len();
    let ghost h = hay@;
    let ghost n = needle@;
    if search_down {
        let mut i: usize = start;
        while i < hlen
            invariant
                search_down,
                start <= i,
                hlen == h.len(),
                h == hay@,
                n == needle@,
                h.len() + needle_len <= usize::MAX,
                forall|j: int| start <= j < i ==> !starts_with_at(h, n, j),
            decreases hlen - i,
        {
            if starts_with_at_exec(hay, needle, i) {
                proof {
                    lemma_first_match_is(h, n, start as int, hlen as int, i as int);
                }
                return Some((i, i + needle_len));
            }
            i = i + 1;
        }
        proof {
            lemma_first_match_none(h, n, start as int, hlen as int);
        }
        if start > 0 {
            let mut i: usize = 0;
            while i < start
                invariant
                    search_down,
                    first_match_in(h, n, start as int, hlen as int) is None,
                    i <= start,
                    hlen == h.len(),
                    h == hay@,
                    n == needle@,
                    find_defined(h, n, needle_len as int, start as int, true),
                    forall|j: int| 0 <= j < i ==> !starts_with_at(h, n, j),
                decreases start - i,
            {
                proof {
                    if i > hlen {
                        lemma_first_match_in(h, n, 0, hlen + 1);
                    }
                }
                if starts_with_at_exec(hay, needle, i) {
                    proof {
                        lemma_first_match_is(h, n, 0, start as int, i as int);
                    }
                    return Some((i, i + needle_len));
                }
                i = i + 1;
            }
            proof {
                lemma_first_match_none(h, n, 0, start as int);
            }
        }
        None
    } else {
        let mut found: Option<usize> = None;
        let mut i: usize = 0;
        while i < start
            invariant
                !search_down,
                i <= start,
                start <= hlen + 1,
                hlen == h.len(),
                h == hay@,
                n == needle@,
                h.len() + needle_len <= usize::MAX,
                found matches Some(k) ==> last_match_in(h, n, 0, i as int) == Some(k as int),
                found is None ==> last_match_in(h, n, 0, i as int) is None,
                found matches Some(k) ==> k < i,
            decreases start - i,
        {
            if starts_with_at_exec(hay, needle, i) {
                found = Some(i);
            }
            i = i + 1;
        }
        if let Some(idx) = found {
            return Some((idx, idx + needle_len));
        }
        let mut i: usize = start;
        while i < hlen
            invariant
                !search_down,
                last_match_in(h, n, 0, start as int) is None,
                start <= i,
                i <= hlen || i == start,
                start <= hlen + 1,
                hlen == h.len(),
                h == hay@,
                n == needle@,
                h.len() + needle_len <= usize::MAX,
                found matches Some(k) ==> last_match_in(h, n, start as int, i as int) == Some(k as int),
                found is None ==> last_match_in(h, n, start as int, i as int) is None,
                found matches Some(k) ==> k < i,
            decreases hlen - i,
        {
            if starts_with_at_exec(hay, needle, i) {
                found = Some(i);
            }
            i = i + 1;
        }
        match found {
            Some(idx) => Some((idx, idx + needle_len)),
            None => None,
        }
    }
}

/// The characters searched in: the text itself, or its lower-case form when the
/// case does not have to match.
pub open spec fn search_form(s: Seq<char>, match_case: bool) -> Seq<char> {
    if match_case {
        s
    } else {
        lowercase(s)
    }
}

/// The position searching from: `start_pos`, but no further than the end of the text.
pub open spec fn clamp_start(start_pos: int, text_len: int) -> int {
    if start_pos < text_len {
        start_pos
    } else {
        text_len
    }
}

/// Where `find_in_edit` lands: nowhere for an empty needle or where the search
/// is not defined, else as `spec_find` says for the search forms of text and
/// needle from the clamped start.
pub open spec fn spec_find_in_edit(text: Seq<char>, needle: Seq<char>, match_case: bool, down: bool, start_pos: int) -> Option<
    (int, int),
> {
    let hay = search_form(text, match_case);
    let nf = search_form(needle, match_case);
    let start = clamp_start(start_pos, text.len() as int);
    if needle.len() == 0 || !find_defined(hay, nf, needle.len() as int, start, down) {
        None
    } else {
        spec_find(hay, nf, needle.len() as int, start, down)
    }
}

/// Finds `needle` in `text` from `start_pos` (a character index), downward or
/// upward, wrapping round at the end, matching case or not; the match is given
/// as a start and an end character index. An empty needle finds nothing. Without
/// matching case both sides are lower-cased first, and the end is the start plus
/// the needle's own length. On the inputs on which the search would read past
/// the end of the lower-cased text it gives `None`.
pub fn find_in_edit(text: &str, needle: &str, match_case: bool, search_down: bool, start_pos: usize) -> (r:
    Option<(usize, usize)>)
    ensures
        opt_pair(r) == spec_find_in_edit(text@, needle@, match_case, search_down, start_pos as int),
        needle@.len() == 0 ==> r is None,
        needle@.len() > 0 && find_defined(
            search_form(text@, match_case),
            search_form(needle@, match_case),
            needle@.len() as int,
            clamp_start(start_pos as int, text@.len() as int),
            search_down,
        ) ==> opt_pair(r) == spec_find(
            search_form(text@, match_case),
            search_form(needle@, match_case),
            needle@.len() as int,
            clamp_start(start_pos as int, text@.len() as int),
            search_down,
        ),
        needle@.len() > 0 && !find_defined(
            search_form(text@, match_case),
            search_form(needle@, match_case),
            needle@.len() as int,
            clamp_start(start_pos as int, text@.len() as int),
            search_down,
        ) ==> r is None,
        match_case ==> (r matches Some((a, b)) ==> b <= text@.len() && text@.subrange(
            a as int,
            b as int,
        ) == needle@),
{
    if needle.is_empty() {
        return None;
    }
    let text_chars = chars_of(text);
    let needle_chars = chars_of(needle);
    let needle_len = needle_chars.len();
    let text_len = text_chars.len();
    let (haystack, needle_form) = if match_case {
        (text_chars, needle_chars)
    } else {
        (chars_of(to_lowercase(text).as_str()), chars_of(to_lowercase(needle).as_str()))
    };
    let start = if start_pos < text_len {
        start_pos
    } else {
        text_len
    };
    let hlen = haystack.len();
    if needle_len > usize::MAX - hlen {
        return None;
    }
    let defined = if start <= hlen || start - 1 <= hlen {
        true
    } else if search_down {
        first_match_up_to_end(haystack.as_slice(), needle_form.as_slice())
    } else {
        false
    };
    if !defined {
        return None;
    }
    let r = find_in_chars(haystack.as_slice(), needle_form.as_slice(), needle_len, start, search_down);
    proof {
        if match_case {
            if let Some((a, b)) = r {
                let h = haystack@;
                let n = needle_form@;
                if search_down {
                    match first_match_in(h, n, start as int, h.len() as int) {
                        Some(i) => lemma_first_match_in(h, n, start as int, h.len() as int),
                        None => lemma_first_match_in(h, n, 0, start as int),
                    }
                } else {
                    match last_match_in(h, n, 0, start as int) {
                        Some(i) => lemma_last_match_in(h, n, 0, start as int),
                        None => lemma_last_match_in(h, n, start as int, h.len() as int),
                    }
                }
            }
        }
    }
    r
}

proof fn lemma_last_match_in(hay: Seq<char>, needle: Seq<char>, lo: int, hi: int)
    ensures
        last_match_in(hay, needle, lo, hi) matches Some(k) ==> lo <= k < hi && starts_with_at(
            hay,
            needle,
            k,
        ),
    decreases hi - lo,
{
    if lo < hi {
        lemma_last_match_in(hay, needle, lo, hi - 1);
    }
}

/// Whether `needle` starts somewhere in `hay`, its end included.
fn first_match_up_to_end(hay: &[char], needle: &[char]) -> (b: bool)
    requires
        hay@.len() + 1 <= usize::MAX,
    ensures
        b == first_match_in(hay@, needle@, 0, (hay@.len() + 1) as int) is Some,
{
    let mut i: usize = 0;
    while i <= hay.len()
        invariant
            i <= hay@.len() + 1,
            hay@.len() + 1 <= usize::MAX,
            forall|j: int| 0 <= j < i ==> !starts_with_at(hay@, needle@, j),
        decreases hay@.len() + 1 - i,
    {
        if starts_with_at_exec(hay, needle, i) {
            proof {
                lemma_first_match_is(hay@, needle@, 0, (hay@.len() + 1) as int, i as int);
            }
            return true;
        }
        i = i + 1;
    }
    proof {
        lemma_first_match_none(hay@, needle@, 0, (hay@.len() + 1) as int);
    }
    false
}


/// The positions, from `i` on, at which `needle` is replaced: scanning left to
/// right, each match is taken and the scan resumes after it.
pub open spec fn match_positions(hay: Seq<char>, needle: Seq<char>, i: int) -> Seq<int>
    decreases hay.len() + 1 - i,
{
    if needle.len() == 0 || i < 0 || i + needle.len() > hay.len() {
        Seq::empty()
    } else if starts_with_at(hay, needle, i) {
        seq![i] + match_positions(hay, needle, i + needle.len())
    } else {
        match_positions(hay, needle, i + 1)
    }
}

/// The text from `src` on, with each of `positions` (and the `n` characters from
/// it) replaced by `rchars`.
pub open spec fn rebuild(nchars: Seq<char>, positions: Seq<int>, n: int, rchars: Seq<char>, src: int) -> Seq<
    char,
>
    decreases positions.len(),
{
    if positions.len() == 0 {
        nchars.subrange(src, nchars.len() as int)
    } else {
        nchars.subrange(src, positions[0]) + rchars + rebuild(
            nchars,
            positions.drop_first(),
            n,
            rchars,
            positions[0] + n,
        )
    }
}

/// Positions at or after `src`, each at least `n` past the one before, all
/// ending within `limit`.
pub open spec fn well_spaced(positions: Seq<int>, n: int, src: int, limit: int) -> bool {
    &&& forall|k: int| 0 <= k < positions.len() ==> src <= #[trigger] positions[k]
    &&& forall|k: int| 0 <= k < positions.len() ==> #[trigger] positions[k] + n <= limit
    &&& forall|j: int, k: int| 0 <= j < k < positions.len() ==> positions[j] + n <= positions[k]
}

/// Replacing every occurrence of `needle` in `text` by `replacement`: the new
/// text and the number of replacements, or `None` when nothing is replaced. With
/// case ignored the occurrences are found in the lower-cased text and cut out of
/// the text as it was; `None` also stands for the lower-case forms on which this
/// would not end or would cut beyond the end of the text.
pub open spec fn spec_replace_all(text: Seq<char>, needle: Seq<char>, replacement: Seq<char>, match_case: bool) -> Option<
    (Seq<char>, nat),
> {
    let hay = search_form(text, match_case);
    let nf = search_form(needle, match_case);
    let pos = match_positions(hay, nf, 0);
    if needle.len() == 0 || nf.len() == 0 || pos.len() == 0 || pos.last() + nf.len() > text.len() {
        None
    } else {
        Some((rebuild(text, pos, nf.len() as int, replacement, 0), pos.len()))
    }
}

proof fn lemma_match_positions_spaced(hay: Seq<char>, needle: Seq<char>, i: int)
    requires
        needle.len() > 0,
        i >= 0,
    ensures
        well_spaced(match_positions(hay, needle, i), needle.len() as int, i, hay.len() as int),
    decreases hay.len() + 1 - i,
{
    let n = needle.len() as int;
    if i + n > hay.len() {
    } else if starts_with_at(hay, needle, i) {
        lemma_match_positions_spaced(hay, needle, i + n);
        let rest = match_positions(hay, needle, i + n);
        let p = match_positions(hay, needle, i);
        assert(p =~= seq![i] + rest);
        assert forall|j: int, k: int| 0 <= j < k < p.len() implies p[j] + n <= p[k] by {
            if j > 0 {
                assert(p[j] == rest[j - 1] && p[k] == rest[k - 1]);
            } else {
                assert(p[k] == rest[k - 1]);
            }
        }
        assert forall|k: int| 0 <= k < p.len() implies i <= #[trigger] p[k] && p[k] + n <= hay.len() by {
            if k > 0 {
                assert(p[k] == rest[k - 1]);
            }
        }
    } else {
        lemma_match_positions_spaced(hay, needle, i + 1);
    }
}

/// The positions at which `needle` is replaced in `hay`, as `match_positions` describes.
pub fn match_positions_exec(hay: &[char], needle: &[char]) -> (r: Vec<usize>)
    requires
        needle@.len() > 0,
    ensures
        r@.map_values(|p: usize| p as int) == match_positions(hay@, needle@, 0),
{
    let n = needle.len();
    let mut r: Vec<usize> = Vec::new();
    let mut i: usize = 0;
    while i <= hay.len() && n <= hay.len() - i
        invariant
            n == needle@.len(),
            n > 0,
            i <= hay@.len() + n,
            match_positions(hay@, needle@, 0) == r@.map_values(|p: usize| p as int)
                + match_positions(hay@, needle@, i as int),
        decreases hay@.len() + 1 - i,
    {
        let ghost old_r = r@;
        if starts_with_at_exec(hay, needle, i) {
            r.push(i);
            assert(r@.map_values(|p: usize| p as int) =~= old_r.map_values(|p: usize| p as int)
                + seq![i as int]);
            i = i + n;
        } else {
            i = i + 1;
        }
    }
    assert(match_positions(hay@, needle@, i as int) =~= Seq::<int>::empty());
    assert(r@.map_values(|p: usize| p as int) + Seq::<int>::empty() =~= r@.map_values(
        |p: usize| p as int,
    ));
    r
}

/// Appends `src[from..to]` to `out`.
fn push_range(out: &mut Vec<char>, src: &[char], from: usize, to: usize)
    requires
        from <= to <= src@.len(),
    ensures
        final(out)@ == old(out)@ + src@.subrange(from as int, to as int),
{
    let mut i = from;
    while i < to
        invariant
            from <= i <= to,
            to <= src@.len(),
            out@ == old(out)@ + src@.subrange(from as int, i as int),
        decreases to - i,
    {
        out.push(src[i]);
        i = i + 1;
        assert(out@ =~= old(out)@ + src@.subrange(from as int, i as int));
    }
}

/// Builds `rebuild(nchars, positions, n, rchars, 0)`.
pub fn rebuild_exec(nchars: &[char], positions: &[usize], n: usize, rchars: &[char]) -> (r: Vec<char>)
    requires
        well_spaced(positions@.map_values(|p: usize| p as int), n as int, 0, nchars@.len() as int),
    ensures
        r@ == rebuild(nchars@, positions@.map_values(|p: usize| p as int), n as int, rchars@, 0),
{
    let ghost pos = positions@.map_values(|p: usize| p as int);
    let mut out: Vec<char> = Vec::new();
    let mut src: usize = 0;
    let mut k: usize = 0;
    assert(pos.skip(0) =~= pos);
    assert(out@ + rebuild(nchars@, pos, n as int, rchars@, 0) =~= rebuild(nchars@, pos, n as int, rchars@, 0));
    while k < positions.len()
        invariant
            pos == positions@.map_values(|p: usize| p as int),
            well_spaced(pos, n as int, 0, nchars@.len() as int),
            k <= positions@.len(),
            src <= nchars@.len(),
            k > 0 ==> src == pos[k - 1] + n,
            k == 0 ==> src == 0,
            rebuild(nchars@, pos, n as int, rchars@, 0) == out@ + rebuild(
                nchars@,
                pos.skip(k as int),
                n as int,
                rchars@,
                src as int,
            ),
        decreases positions@.len() - k,
    {
        let p = positions[k];
        assert(pos[k as int] == p);
        assert(src <= p) by {
            if k > 0 {
                assert(pos[k - 1] + n <= pos[k as int]);
            }
        }
        assert(p + n <= nchars.len());
        let ghost rest = pos.skip(k as int);
        assert(rest[0] == p);
        assert(rest.drop_first() =~= pos.skip(k + 1));
        push_range(&mut out, nchars, src, p);
        push_range(&mut out, rchars, 0, rchars.len());
        assert(rchars@.subrange(0, rchars@.len() as int) =~= rchars@);
        src = p + n;
        k = k + 1;
    }
    assert(pos.skip(k as int) =~= Seq::<int>::empty());
    push_range(&mut out, nchars, src, nchars.len());
    out
}

/// Replaces every occurrence of `needle` in `text` by `replacement`, matching
/// case or not; gives the new text and the number of replacements, or `None`
/// when nothing is replaced (see `spec_replace_all`).
pub fn replace_all_occurrences(text: &str, needle: &str, replacement: &str, match_case: bool) -> (r:
    Option<(String, usize)>)
    ensures
        r matches Some((s, c)) ==> spec_replace_all(text@, needle@, replacement@, match_case) == Some(
            (s@, c as nat),
        ),
        r is None ==> spec_replace_all(text@, needle@, replacement@, match_case) is None,
{
    if needle.is_empty() {
        return None;
    }
    let nchars = chars_of(text);
    let (haystack, needle_form) = if match_case {
        (chars_of(text), chars_of(needle))
    } else {
        (chars_of(to_lowercase(text).as_str()), chars_of(to_lowercase(needle).as_str()))
    };
    let rchars = chars_of(replacement);
    let n = needle_form.len();
    if n == 0 {
        return None;
    }
    let positions = match_positions_exec(haystack.as_slice(), needle_form.as_slice());
    let ghost pos = positions@.map_values(|p: usize| p as int);
    proof {
        lemma_match_positions_spaced(haystack@, needle_form@, 0);
    }
    let count = positions.len();
    if count == 0 {
        return None;
    }
    let last = positions[count - 1];
    assert(pos.last() == last);
    if last > nchars.len() || n > nchars.len() - last {
        return None;
    }
    proof {
        assert forall|k: int| 0 <= k < pos.len() implies #[trigger] pos[k] + n <= nchars@.len() by {
            if k < pos.len() - 1 {
                assert(pos[k] + n <= pos[pos.len() - 1]);
            }
        }
    }
    let out = rebuild_exec(nchars.as_slice(), positions.as_slice(), n, rchars.as_slice());
    Some((string_from_chars(out.as_slice()), count))
}

proof fn lemma_rebuild_with_same(nchars: Seq<char>, positions: Seq<int>, n: int, src: int)
    requires
        n >= 0,
        0 <= src <= nchars.len(),
        well_spaced(positions, n, src, nchars.len() as int),
        forall|k: int|
            0 <= k < positions.len() ==> #[trigger] nchars.subrange(positions[k], positions[k] + n)
                == nchars.subrange(positions[0], positions[0] + n),
    ensures
        positions.len() > 0 ==> rebuild(
            nchars,
            positions,
            n,
            nchars.subrange(positions[0], positions[0] + n),
            src,
        ) == nchars.subrange(src, nchars.len() as int),
    decreases positions.len(),
{
    if positions.len() > 0 {
        let p = positions[0];
        let rchars = nchars.subrange(p, p + n);
        let rest = positions.drop_first();
        if rest.len() > 0 {
            assert(positions[1] == rest[0]);
            assert(nchars.subrange(rest[0], rest[0] + n) == rchars);
            assert forall|k: int| 0 <= k < rest.len() implies #[trigger] nchars.subrange(
                rest[k],
                rest[k] + n,
            ) == nchars.subrange(rest[0], rest[0] + n) by {
                assert(rest[k] == positions[k + 1]);
            }
            assert forall|j: int, k: int| 0 <= j < k < rest.len() implies rest[j] + n <= rest[k] by {
                assert(rest[j] == positions[j + 1] && rest[k] == positions[k + 1]);
            }
            assert forall|k: int| 0 <= k < rest.len() implies p + n <= #[trigger] rest[k] && rest[k] + n
                <= nchars.len() by {
                assert(rest[k] == positions[k + 1]);
            }
            lemma_rebuild_with_same(nchars, rest, n, p + n);
        } else {
            assert(p + n <= nchars.len());
            assert(rebuild(nchars, rest, n, rchars, p + n) == nchars.subrange(p + n, nchars.len() as int));
        }
        assert(positions[0] + n <= nchars.len());
        assert(src <= p);
        assert(rebuild(nchars, positions, n, rchars, src) == nchars.subrange(src, p) + rchars + rebuild(nchars, rest, n, rchars, p + n));
        assert(nchars.subrange(src, p) + rchars + nchars.subrange(p + n, nchars.len() as int)
            =~= nchars.subrange(src, nchars.len() as int));
    }
}

/// Replacing every occurrence of a needle by the needle itself, matching case,
/// leaves the text as it was.
pub proof fn lemma_replace_with_itself(text: Seq<char>, needle: Seq<char>)
    ensures
        spec_replace_all(text, needle, needle, true) matches Some((t, _)) ==> t == text,
{
    if needle.len() > 0 {
        let pos = match_positions(text, needle, 0);
        let n = needle.len() as int;
        lemma_match_positions_spaced(text, needle, 0);
        if pos.len() > 0 {
            assert forall|k: int| 0 <= k < pos.len() implies #[trigger] text.subrange(
                pos[k],
                pos[k] + n,
            ) == text.subrange(pos[0], pos[0] + n) by {
                lemma_match_positions_are_matches(text, needle, 0, k);
                lemma_match_positions_are_matches(text, needle, 0, 0);
            }
            lemma_match_positions_are_matches(text, needle, 0, 0);
            lemma_rebuild_with_same(text, pos, n, 0);
            assert(text.subrange(0, text.len() as int) =~= text);
        }
    }
}

proof fn lemma_match_positions_are_matches(hay: Seq<char>, needle: Seq<char>, i: int, k: int)
    requires
        0 <= k < match_positions(hay, needle, i).len(),
    ensures
        starts_with_at(hay, needle, match_positions(hay, needle, i)[k]),
    decreases hay.len() + 1 - i,
{
    let n = needle.len() as int;
    if needle.len() == 0 || i < 0 || i + n > hay.len() {
    } else if starts_with_at(hay, needle, i) {
        let rest = match_positions(hay, needle, i + n);
        assert(match_positions(hay, needle, i) =~= seq![i] + rest);
        if k > 0 {
            lemma_match_positions_are_matches(hay, needle, i + n, k - 1);
        }
    } else {
        lemma_match_positions_are_matches(hay, needle, i + 1, k);
    }
}


proof fn lemma_first_match_exists(hay: Seq<char>, needle: Seq<char>, lo: int, hi: int, k: int)
    requires
        lo <= k < hi,
        starts_with_at(hay, needle, k),
    ensures
        first_match_in(hay, needle, lo, hi) is Some,
    decreases k - lo,
{
    if lo < k && !starts_with_at(hay, needle, lo) {
        lemma_first_match_exists(hay, needle, lo + 1, hi, k);
    }
}

proof fn lemma_last_match_exists(hay: Seq<char>, needle: Seq<char>, lo: int, hi: int, k: int)
    requires
        lo <= k < hi,
        starts_with_at(hay, needle, k),
    ensures
        last_match_in(hay, needle, lo, hi) is Some,
    decreases hi - k,
{
    if k < hi - 1 && !starts_with_at(hay, needle, hi - 1) {
        lemma_last_match_exists(hay, needle, lo, hi - 1, k);
    }
}

/// Searching wraps round the end of the text: wherever the needle occurs, a
/// search from any start, in either direction, lands on an occurrence.
pub proof fn lemma_search_wraps_round(hay: Seq<char>, needle: Seq<char>, nlen: int, start: int, down: bool, k: int)
    requires
        0 <= start <= hay.len(),
        0 <= k < hay.len(),
        starts_with_at(hay, needle, k),
    ensures
        spec_find(hay, needle, nlen, start, down) matches Some((a, b)) && starts_with_at(hay, needle, a) && b
            == a + nlen,
{
    let len = hay.len() as int;
    if down {
        lemma_first_match_in(hay, needle, start, len);
        lemma_first_match_in(hay, needle, 0, start);
        if k >= start {
            lemma_first_match_exists(hay, needle, start, len, k);
        } else if first_match_in(hay, needle, start, len) is None {
            lemma_first_match_exists(hay, needle, 0, start, k);
        }
    } else {
        lemma_last_match_in(hay, needle, 0, start);
        lemma_last_match_in(hay, needle, start, len);
        if k < start {
            lemma_last_match_exists(hay, needle, 0, start, k);
        } else if last_match_in(hay, needle, 0, start) is None {
            lemma_last_match_exists(hay, needle, start, len, k);
        }
    }
}

/// Find, matching case, finds the needle wherever it occurs in the text: from
/// any start and in either direction it selects an occurrence of it.
pub proof fn lemma_find_finds_occurrence(text: Seq<char>, needle: Seq<char>, down: bool, start_pos: int, k: int)
    requires
        needle.len() > 0,
        start_pos >= 0,
        starts_with_at(text, needle, k),
        text.len() + needle.len() <= usize::MAX,
    ensures
        spec_find_in_edit(text, needle, true, down, start_pos) matches Some((a, b)) && 0 <= a && b
            <= text.len() && text.subrange(a, b) == needle,
{
    let start = clamp_start(start_pos, text.len() as int);
    assert(search_form(text, true) == text);
    assert(search_form(needle, true) == needle);
    assert(find_defined(text, needle, needle.len() as int, start, down));
    lemma_search_wraps_round(text, needle, needle.len() as int, start, down, k);
}

proof fn lemma_last_match_full(hay: Seq<char>, needle: Seq<char>, lo: int, hi: int)
    ensures
        last_match_in(hay, needle, lo, hi) matches Some(k) ==> {
            &&& lo <= k < hi
            &&& starts_with_at(hay, needle, k)
            &&& forall|j: int| k < j < hi ==> !starts_with_at(hay, needle, j)
        },
        last_match_in(hay, needle, lo, hi) is None ==> forall|j: int|
            lo <= j < hi ==> !starts_with_at(hay, needle, j),
    decreases hi - lo,
{
    if lo < hi {
        lemma_last_match_full(hay, needle, lo, hi - 1);
    }
}

/// Searching down lands on the first occurrence at or after the start: when the
/// needle (in its search form) occurs at some position at or after the clamped
/// start, Find selects the least such position, and no occurrence lies between
/// the start and the selection. The selection is as long as the needle.
pub proof fn lemma_find_down_takes_first_at_or_after_start(
    text: Seq<char>,
    needle: Seq<char>,
    match_case: bool,
    start_pos: int,
    p: int,
)
    requires
        needle.len() > 0,
        search_form(needle, match_case).len() > 0,
        start_pos >= 0,
        search_form(text, match_case).len() + needle.len() <= usize::MAX,
        clamp_start(start_pos, text.len() as int) <= p,
        starts_with_at(search_form(text, match_case), search_form(needle, match_case), p),
    ensures
        spec_find_in_edit(text, needle, match_case, true, start_pos) matches Some((a, b)) && {
            let hay = search_form(text, match_case);
            let nf = search_form(needle, match_case);
            let s = clamp_start(start_pos, text.len() as int);
            &&& s <= a <= p
            &&& starts_with_at(hay, nf, a)
            &&& b == a + needle.len()
            &&& forall|j: int| s <= j < a ==> !starts_with_at(hay, nf, j)
        },
{
    let hay = search_form(text, match_case);
    let nf = search_form(needle, match_case);
    let s = clamp_start(start_pos, text.len() as int);
    assert(find_defined(hay, nf, needle.len() as int, s, true));
    lemma_first_match_in(hay, nf, s, hay.len() as int);
    if first_match_in(hay, nf, s, hay.len() as int) is None {
        assert(!starts_with_at(hay, nf, p));
    }
}

/// Searching down wraps round only when nothing lies ahead: with no occurrence
/// at or after the clamped start, Find selects the first occurrence in the
/// text.
pub proof fn lemma_find_down_wraps_to_first(text: Seq<char>, needle: Seq<char>, match_case: bool, start_pos: int, p: int)
    requires
        needle.len() > 0,
        search_form(needle, match_case).len() > 0,
        start_pos >= 0,
        search_form(text, match_case).len() + needle.len() <= usize::MAX,
        starts_with_at(search_form(text, match_case), search_form(needle, match_case), p),
        forall|j: int|
            clamp_start(start_pos, text.len() as int) <= j ==> !starts_with_at(
                search_form(text, match_case),
                search_form(needle, match_case),
                j,
            ),
    ensures
        spec_find_in_edit(text, needle, match_case, true, start_pos) matches Some((a, b)) && {
            let hay = search_form(text, match_case);
            let nf = search_form(needle, match_case);
            &&& 0 <= a <= p
            &&& starts_with_at(hay, nf, a)
            &&& b == a + needle.len()
            &&& forall|j: int| 0 <= j < a ==> !starts_with_at(hay, nf, j)
        },
{
    let hay = search_form(text, match_case);
    let nf = search_form(needle, match_case);
    let s = clamp_start(start_pos, text.len() as int);
    assert(p < s);
    assert(find_defined(hay, nf, needle.len() as int, s, true)) by {
        if s > hay.len() + 1 {
            lemma_first_match_exists(hay, nf, 0, (hay.len() + 1) as int, p);
        }
    }
    lemma_first_match_in(hay, nf, s, hay.len() as int);
    lemma_first_match_in(hay, nf, 0, s);
    lemma_first_match_exists(hay, nf, 0, s, p);
}

/// Searching up lands on the last occurrence before the start: when the needle
/// (in its search form) occurs before the clamped start, Find selects the
/// greatest such position, and no occurrence lies between the selection and
/// the start.
pub proof fn lemma_find_up_takes_last_before_start(
    text: Seq<char>,
    needle: Seq<char>,
    match_case: bool,
    start_pos: int,
    p: int,
)
    requires
        needle.len() > 0,
        search_form(needle, match_case).len() > 0,
        start_pos >= 0,
        search_form(text, match_case).len() + needle.len() <= usize::MAX,
        0 <= p < clamp_start(start_pos, text.len() as int),
        clamp_start(start_pos, text.len() as int) <= search_form(text, match_case).len() + 1,
        starts_with_at(search_form(text, match_case), search_form(needle, match_case), p),
    ensures
        spec_find_in_edit(text, needle, match_case, false, start_pos) matches Some((a, b)) && {
            let hay = search_form(text, match_case);
            let nf = search_form(needle, match_case);
            let s = clamp_start(start_pos, text.len() as int);
            &&& p <= a < s
            &&& starts_with_at(hay, nf, a)
            &&& b == a + needle.len()
            &&& forall|j: int| a < j < s ==> !starts_with_at(hay, nf, j)
        },
{
    let hay = search_form(text, match_case);
    let nf = search_form(needle, match_case);
    let s = clamp_start(start_pos, text.len() as int);
    assert(find_defined(hay, nf, needle.len() as int, s, false));
    lemma_last_match_full(hay, nf, 0, s);
}

/// Searching up wraps round only when nothing lies behind: with no occurrence
/// before the clamped start, Find selects the last occurrence in the text.
pub proof fn lemma_find_up_wraps_to_last(text: Seq<char>, needle: Seq<char>, match_case: bool, start_pos: int, p: int)
    requires
        needle.len() > 0,
        search_form(needle, match_case).len() > 0,
        start_pos >= 0,
        search_form(text, match_case).len() + needle.len() <= usize::MAX,
        clamp_start(start_pos, text.len() as int) <= search_form(text, match_case).len() + 1,
        starts_with_at(search_form(text, match_case), search_form(needle, match_case), p),
        forall|j: int|
            0 <= j < clamp_start(start_pos, text.len() as int) ==> !starts_with_at(
                search_form(text, match_case),
                search_form(needle, match_case),
                j,
            ),
    ensures
        spec_find_in_edit(text, needle, match_case, false, start_pos) matches Some((a, b)) && {
            let hay = search_form(text, match_case);
            let nf = search_form(needle, match_case);
            &&& p <= a
            &&& starts_with_at(hay, nf, a)
            &&& b == a + needle.len()
            &&& forall|j: int| a < j ==> !starts_with_at(hay, nf, j)
        },
{
    let hay = search_form(text, match_case);
    let nf = search_form(needle, match_case);
    let s = clamp_start(start_pos, text.len() as int);
    assert(find_defined(hay, nf, needle.len() as int, s, false));
    lemma_last_match_full(hay, nf, 0, s);
    lemma_last_match_full(hay, nf, s, hay.len() as int);
    assert(p >= s);
    assert(p < hay.len());
    lemma_last_match_exists(hay, nf, s, hay.len() as int, p);
}

proof fn lemma_rebuild_layout(nchars: Seq<char>, positions: Seq<int>, n: int, rchars: Seq<char>, src: int, k: int)
    requires
        n >= 0,
        0 <= src <= nchars.len(),
        well_spaced(positions, n, src, nchars.len() as int),
        0 <= k <= positions.len(),
    ensures
        ({
            let out = rebuild(nchars, positions, n, rchars, src);
            let d = rchars.len() - n;
            let seg_start = if k == 0 { src } else { positions[k - 1] + n };
            let seg_end = if k == positions.len() { nchars.len() as int } else { positions[k] };
            let off = k * d - src;
            &&& out.len() == nchars.len() - src + positions.len() * d
            &&& k * rchars.len() <= seg_start + off
            &&& seg_end + off <= out.len()
            &&& k < positions.len() ==> positions[k] + off + rchars.len() <= out.len()
            &&& out.subrange(seg_start + off, seg_end + off) == nchars.subrange(seg_start, seg_end)
            &&& k < positions.len() ==> out.subrange(positions[k] + off, positions[k] + off + rchars.len())
                == rchars
        }),
    decreases positions.len(),
{
    let out = rebuild(nchars, positions, n, rchars, src);
    let d = rchars.len() - n;
    if positions.len() == 0 {
        assert(out.subrange(0, nchars.len() - src) =~= nchars.subrange(src, nchars.len() as int));
    } else {
        let p0 = positions[0];
        let rest = positions.drop_first();
        let src2 = p0 + n;
        assert(src <= p0);
        assert(p0 + n <= nchars.len());
        assert(well_spaced(rest, n, src2, nchars.len() as int)) by {
            assert forall|q: int| 0 <= q < rest.len() implies src2 <= #[trigger] rest[q] by {
                assert(rest[q] == positions[q + 1]);
            }
            assert forall|q: int| 0 <= q < rest.len() implies #[trigger] rest[q] + n <= nchars.len() by {
                assert(rest[q] == positions[q + 1]);
            }
            assert forall|a: int, b: int| 0 <= a < b < rest.len() implies rest[a] + n <= rest[b] by {
                assert(rest[a] == positions[a + 1]);
                assert(rest[b] == positions[b + 1]);
            }
        }
        let head = nchars.subrange(src, p0) + rchars;
        let tail = rebuild(nchars, rest, n, rchars, src2);
        assert(out == head + tail);
        let hl = head.len() as int;
        assert(hl == p0 - src + rchars.len());
        if k == 0 {
            lemma_rebuild_layout(nchars, rest, n, rchars, src2, 0);
            assert(out.subrange(0, p0 - src) =~= nchars.subrange(src, p0));
            assert(out.subrange(p0 - src, p0 - src + rchars.len()) =~= rchars);
            assert((rest.len() as int) * d + d == (positions.len() as int) * d) by (nonlinear_arith)
                requires
                    rest.len() + 1 == positions.len(),
            ;
        } else {
            lemma_rebuild_layout(nchars, rest, n, rchars, src2, k - 1);
            assert((k - 1) * d + d == k * d) by (nonlinear_arith);
            assert((k - 1) * rchars.len() + rchars.len() == k * rchars.len()) by (nonlinear_arith);
            assert((rest.len() as int) * d + d == (positions.len() as int) * d) by (nonlinear_arith)
                requires
                    rest.len() + 1 == positions.len(),
            ;
            let seg_start = if k == 0 { src } else { positions[k - 1] + n };
            let seg_end = if k == positions.len() { nchars.len() as int } else { positions[k] };
            let off = k * d - src;
            let off2 = (k - 1) * d - src2;
            assert(off == hl + off2);
            if k == 1 {
                assert(seg_start == src2);
            } else {
                assert(rest[k - 2] == positions[k - 1]);
            }
            if k < positions.len() {
                assert(rest[k - 1] == positions[k]);
            }
            assert(out.subrange(seg_start + off, seg_end + off) =~= tail.subrange(seg_start + off2, seg_end + off2));
            if k < positions.len() {
                assert(out.subrange(positions[k] + off, positions[k] + off + rchars.len()) =~= tail.subrange(
                    positions[k] + off2,
                    positions[k] + off2 + rchars.len(),
                ));
            }
        }
    }
}

/// Replace All keeps the text between the replaced occurrences as it was and
/// puts the replacement in place of each occurrence. The occurrences are those
/// a left-to-right scan of the search forms finds (`match_positions`), `n`
/// characters long (the needle's search form), and each earlier replacement
/// shifts the rest by `d` = replacement length minus `n`. Stretch `k` of the text
/// (from the end of occurrence `k - 1`, or the start, up to occurrence `k`, or
/// the end) appears unchanged in the result `k * d` further on, and occurrence
/// `k` is replaced there by the replacement. The count is the number of
/// occurrences.
pub proof fn lemma_replace_all_keeps_text_between_occurrences(
    text: Seq<char>,
    needle: Seq<char>,
    replacement: Seq<char>,
    match_case: bool,
    k: int,
)
    requires
        spec_replace_all(text, needle, replacement, match_case) is Some,
        0 <= k <= match_positions(search_form(text, match_case), search_form(needle, match_case), 0).len(),
    ensures
        ({
            let (out, count) = spec_replace_all(text, needle, replacement, match_case).unwrap();
            let pos = match_positions(search_form(text, match_case), search_form(needle, match_case), 0);
            let n = search_form(needle, match_case).len() as int;
            let d = replacement.len() - n;
            let seg_start = if k == 0 { 0 } else { pos[k - 1] + n };
            let seg_end = if k == pos.len() { text.len() as int } else { pos[k] };
            &&& count == pos.len()
            &&& out.len() == text.len() + pos.len() * d
            &&& forall|q: int| 0 <= q < pos.len() ==> starts_with_at(
                search_form(text, match_case),
                search_form(needle, match_case),
                #[trigger] pos[q],
            )
            &&& 0 <= seg_start + k * d <= seg_end + k * d <= out.len()
            &&& out.subrange(seg_start + k * d, seg_end + k * d) == text.subrange(seg_start, seg_end)
            &&& k < pos.len() ==> pos[k] + k * d + replacement.len() <= out.len()
            &&& k < pos.len() ==> out.subrange(pos[k] + k * d, pos[k] + k * d + replacement.len())
                == replacement
        }),
{
    let hay = search_form(text, match_case);
    let nf = search_form(needle, match_case);
    let pos = match_positions(hay, nf, 0);
    let n = nf.len() as int;
    lemma_match_positions_spaced(hay, nf, 0);
    assert forall|q: int| 0 <= q < pos.len() implies #[trigger] pos[q] + n <= text.len() by {
        if q < pos.len() - 1 {
            assert(pos[q] + n <= pos[pos.len() - 1]);
        }
    }
    assert(well_spaced(pos, n, 0, text.len() as int));
    assert forall|q: int| 0 <= q < pos.len() implies starts_with_at(hay, nf, #[trigger] pos[q]) by {
        lemma_match_positions_are_matches(hay, nf, 0, q);
    }
    lemma_rebuild_layout(text, pos, n, replacement, 0, k);
}
} // verus!

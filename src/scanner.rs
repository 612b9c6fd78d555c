use vstd::prelude::*;

verus! {

/// A byte pattern in which `None` stands for a wildcard byte.
pub struct Pattern {
    pub bytes: Vec<Option<u8>>,
}

impl View for Pattern {
    type V = Seq<Option<u8>>;

    open spec fn view(&self) -> Seq<Option<u8>> {
        self.bytes@
    }
}

/// A readable memory range: its start address and its contents.
pub struct Region {
    pub address: u64,
    pub bytes: Vec<u8>,
}

/// A pattern byte accepts `b` when it is a wildcard or equals `b`.
pub open spec fn byte_accepts(p: Option<u8>, b: u8) -> bool {
    match p {
        Some(v) => v == b,
        None => true,
    }
}

/// The pattern occurs in `hay` starting at offset `i`.
pub open spec fn matches_at(hay: Seq<u8>, pat: Seq<Option<u8>>, i: int) -> bool {
    &&& 0 <= i
    &&& i + pat.len() <= hay.len()
    &&& forall|k: int| 0 <= k < pat.len() ==> #[trigger] byte_accepts(pat[k], hay[i + k])
}

/// The lowest offset at or after `from` where the pattern occurs.
pub open spec fn first_match_from(hay: Seq<u8>, pat: Seq<Option<u8>>, from: int) -> Option<int>
    decreases hay.len() - from,
{
    if from < 0 || from + pat.len() > hay.len() {
        None
    } else if matches_at(hay, pat, from) {
        Some(from)
    } else {
        first_match_from(hay, pat, from + 1)
    }
}

/// The lowest offset where the pattern occurs in `hay`.
pub open spec fn first_match(hay: Seq<u8>, pat: Seq<Option<u8>>) -> Option<int> {
    first_match_from(hay, pat, 0)
}

pub open spec fn region_addresses_fit(regions: Seq<Region>) -> bool {
    forall|k: int| 0 <= k < regions.len() ==> #[trigger] regions[k].address + regions[k].bytes@.len()
        <= u64::MAX
}

/// The address of the first match, visiting the regions in sequence order and
/// stopping at the first region that holds the pattern.
pub open spec fn scan_in_order(regions: Seq<Region>, pat: Seq<Option<u8>>) -> Option<int>
    decreases regions.len(),
{
    if regions.len() == 0 {
        None
    } else {
        match first_match(regions[0].bytes@, pat) {
            Some(off) => Some(regions[0].address + off),
            None => scan_in_order(regions.drop_first(), pat),
        }
    }
}

/// What a scan returns: regions are visited in address order, or from the last
/// one back to the first when `reverse` is set.
pub open spec fn scan_spec(regions: Seq<Region>, pat: Seq<Option<u8>>, reverse: bool) -> Option<int> {
    if reverse {
        scan_in_order(regions.reverse(), pat)
    } else {
        scan_in_order(regions, pat)
    }
}

proof fn lemma_first_match_from_props(hay: Seq<u8>, pat: Seq<Option<u8>>, from: int)
    requires
        0 <= from,
    ensures
        match first_match_from(hay, pat, from) {
            Some(i) => from <= i && matches_at(hay, pat, i) && forall|j: int|
                from <= j < i ==> !matches_at(hay, pat, j),
            None => forall|j: int| from <= j ==> !matches_at(hay, pat, j),
        },
    decreases hay.len() - from,
{
    if from + pat.len() > hay.len() {
    } else if matches_at(hay, pat, from) {
    } else {
        lemma_first_match_from_props(hay, pat, from + 1);
    }
}

/// The first match is an occurrence, and no occurrence comes before it; where
/// there is no first match there is no occurrence at all.
pub proof fn lemma_first_match(hay: Seq<u8>, pat: Seq<Option<u8>>)
    ensures
        match first_match(hay, pat) {
            Some(i) => matches_at(hay, pat, i) && forall|j: int| 0 <= j < i ==> !matches_at(hay, pat, j),
            None => forall|j: int| !matches_at(hay, pat, j),
        },
{
    lemma_first_match_from_props(hay, pat, 0);
}

/// A haystack that holds the pattern at offset `p` (its wildcards standing for
/// any bytes) is found by the scan: the reported offset is an occurrence, at or
/// before `p`, and it is `p` itself when no occurrence starts earlier.
pub proof fn lemma_embedded_pattern_found(hay: Seq<u8>, pat: Seq<Option<u8>>, p: int)
    requires
        matches_at(hay, pat, p),
    ensures
        first_match(hay, pat) is Some,
        matches_at(hay, pat, first_match(hay, pat)->0),
        first_match(hay, pat)->0 <= p,
        (forall|j: int| 0 <= j < p ==> !matches_at(hay, pat, j)) ==> first_match(hay, pat) == Some(p),
{
    lemma_first_match(hay, pat);
}

proof fn lemma_first_match_from_shift(hay: Seq<u8>, pat: Seq<Option<u8>>, start: int, i: int)
    requires
        0 <= start <= hay.len(),
        0 <= i,
    ensures
        first_match_from(hay.subrange(start, hay.len() as int), pat, i) == (match first_match_from(hay, pat, start + i) {
            Some(x) => Some(x - start),
            None => None::<int>,
        }),
    decreases hay.len() - start - i,
{
    let sub = hay.subrange(start, hay.len() as int);
    if i + pat.len() <= sub.len() {
        assert(matches_at(sub, pat, i) == matches_at(hay, pat, start + i)) by {
            if matches_at(hay, pat, start + i) {
                assert forall|k: int| 0 <= k < pat.len() implies #[trigger] byte_accepts(pat[k], sub[i + k]) by {
                    assert(sub[i + k] == hay[start + i + k]);
                    assert(byte_accepts(pat[k], hay[(start + i) + k]));
                }
            }
            if matches_at(sub, pat, i) {
                assert forall|k: int| 0 <= k < pat.len() implies #[trigger] byte_accepts(pat[k], hay[(start + i) + k]) by {
                    assert(sub[i + k] == hay[start + i + k]);
                    assert(byte_accepts(pat[k], sub[i + k]));
                }
            }
        }
        if !matches_at(sub, pat, i) {
            lemma_first_match_from_shift(hay, pat, start, i + 1);
        }
    }
}

/// Scanning again past a match finds the next occurrence. Scanning the part of
/// `hay` that starts at `start` reports, relative to `start`, the first
/// occurrence at or after `start`. Restarting each scan right after the
/// previous match therefore reports every non-overlapping occurrence once, in
/// order.
pub proof fn lemma_rescan_finds_next(hay: Seq<u8>, pat: Seq<Option<u8>>, start: int)
    requires
        0 <= start <= hay.len(),
    ensures
        match first_match(hay.subrange(start, hay.len() as int), pat) {
            Some(j) => matches_at(hay, pat, start + j) && forall|k: int|
                start <= k < start + j ==> !matches_at(hay, pat, k),
            None => forall|k: int| start <= k ==> !matches_at(hay, pat, k),
        },
{
    lemma_first_match_from_shift(hay, pat, start, 0);
    lemma_first_match_from_props(hay, pat, start);
}

proof fn lemma_scan_in_order_picks(regions: Seq<Region>, pat: Seq<Option<u8>>, k: int)
    requires
        0 <= k < regions.len(),
        first_match(regions[k].bytes@, pat) is Some,
        forall|j: int| 0 <= j < k ==> (#[trigger] first_match(regions[j].bytes@, pat)) is None,
    ensures
        scan_in_order(regions, pat) == Some(regions[k].address + first_match(regions[k].bytes@, pat)->0),
    decreases k,
{
    if k > 0 {
        let rest = regions.drop_first();
        assert forall|j: int| 0 <= j < k - 1 implies (#[trigger] first_match(rest[j].bytes@, pat)) is None by {
            assert(rest[j] == regions[j + 1]);
        }
        assert(first_match(regions[0].bytes@, pat) is None);
        lemma_scan_in_order_picks(rest, pat, k - 1);
    }
}

/// Scan direction decides which region answers: forward, the lowest-indexed
/// region holding the pattern; in reverse, the highest-indexed one. The address
/// is that of the first occurrence inside the answering region.
pub proof fn lemma_scan_direction(regions: Seq<Region>, pat: Seq<Option<u8>>, k: int)
    requires
        0 <= k < regions.len(),
        first_match(regions[k].bytes@, pat) is Some,
    ensures
        (forall|j: int| 0 <= j < k ==> (#[trigger] first_match(regions[j].bytes@, pat)) is None)
            ==> scan_spec(regions, pat, false) == Some(
            regions[k].address + first_match(regions[k].bytes@, pat)->0,
        ),
        (forall|j: int| k < j < regions.len() ==> (#[trigger] first_match(regions[j].bytes@, pat)) is None)
            ==> scan_spec(regions, pat, true) == Some(
            regions[k].address + first_match(regions[k].bytes@, pat)->0,
        ),
{
    if forall|j: int| 0 <= j < k ==> (#[trigger] first_match(regions[j].bytes@, pat)) is None {
        lemma_scan_in_order_picks(regions, pat, k);
    }
    if forall|j: int| k < j < regions.len() ==> (#[trigger] first_match(regions[j].bytes@, pat)) is None {
        let rev = regions.reverse();
        let n = regions.len();
        assert(rev[n - 1 - k] == regions[k]);
        assert forall|j: int| 0 <= j < n - 1 - k implies (#[trigger] first_match(rev[j].bytes@, pat)) is None by {
            assert(rev[j] == regions[n - 1 - j]);
        }
        lemma_scan_in_order_picks(rev, pat, n - 1 - k);
    }
}

/// Whether the pattern occurs at offset `i` of `hay`.
pub fn matches_at_offset(hay: &[u8], pat: &Pattern, i: usize) -> (r: bool)
    ensures
        r == matches_at(hay@, pat@, i as int),
{
    if i > hay.len() || pat.bytes.len() > hay.len() - i {
        return false;
    }
    let len = hay.len();
    let mut k: usize = 0;
    while k < pat.bytes.len()
        invariant
            len == hay@.len(),
            i + pat@.len() <= hay@.len(),
            0 <= k <= pat@.len(),
            forall|m: int| 0 <= m < k ==> #[trigger] byte_accepts(pat@[m], hay@[i + m]),
        decreases pat@.len() - k,
    {
        let ok = match pat.bytes[k] {
            Some(v) => v == hay[i + k],
            None => true,
        };
        if !ok {
            assert(!byte_accepts(pat@[k as int], hay@[i + k]));
            return false;
        }
        k = k + 1;
    }
    true
}

/// The offset of the first occurrence of the pattern in `hay`.
pub fn find_in(hay: &[u8], pat: &Pattern) -> (r: Option<usize>)
    ensures
        match r {
            Some(i) => first_match(hay@, pat@) == Some(i as int),
            None => first_match(hay@, pat@) is None,
        },
{
    if pat.bytes.len() > hay.len() {
        return None;
    }
    let len = hay.len();
    let last = len - pat.bytes.len();
    let mut i: usize = 0;
    while i <= last
        invariant
            len == hay@.len(),
            last + pat@.len() == hay@.len(),
            i <= last + 1,
            first_match(hay@, pat@) == first_match_from(hay@, pat@, i as int),
        decreases last + 1 - i,
    {
        if matches_at_offset(hay, pat, i) {
            return Some(i);
        }
        i = i + 1;
    }
    None
}

/// Scans the regions for the pattern and returns the address of the first
/// byte of the first match; with `reverse`, the regions are visited from the
/// last to the first.
pub fn scan_regions(regions: &Vec<Region>, pat: &Pattern, reverse: bool) -> (r: Option<u64>)
    requires
        region_addresses_fit(regions@),
    ensures
        match r {
            Some(a) => scan_spec(regions@, pat@, reverse) == Some(a as int) && a + pat@.len() <= u64::MAX,
            None => scan_spec(regions@, pat@, reverse) is None,
        },
{
    let n = regions.len();
    let mut t: usize = 0;
    proof {
        let order = if reverse { regions@.reverse() } else { regions@ };
        assert(order.subrange(0, n as int) =~= order);
    }
    while t < n
        invariant
            n == regions@.len(),
            t <= n,
            region_addresses_fit(regions@),
            scan_spec(regions@, pat@, reverse) == scan_in_order(
                if reverse { regions@.reverse() } else { regions@ }.subrange(t as int, n as int),
                pat@,
            ),
        decreases n - t,
    {
        let k = if reverse { n - 1 - t } else { t };
        let ghost order = if reverse { regions@.reverse() } else { regions@ };
        let ghost rest = order.subrange(t as int, n as int);
        assert(rest[0] == regions@[k as int]);
        assert(rest.drop_first() =~= order.subrange(t + 1, n as int));
        let region = &regions[k];
        match find_in(region.bytes.as_slice(), pat) {
            Some(off) => {
                proof { lemma_first_match(region.bytes@, pat@); }
                assert(region.address + region.bytes@.len() <= u64::MAX);
                return Some(region.address + off as u64);
            },
            None => {},
        }
        t = t + 1;
    }
    let ghost order = if reverse { regions@.reverse() } else { regions@ };
    assert(order.subrange(n as int, n as int).len() == 0);
    None
}

} // verus!

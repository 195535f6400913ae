//! Raw memory scans: the hex-with-wildcard pattern notation, the
//! exact/wildcard byte matcher, and the per-section orchestration that
//! concatenates match addresses in section enumeration order.
//!
//! Cross-reference search needs the instruction-decoding collaborator;
//! only its per-section results are collected here.

use vstd::prelude::*;
use vstd::string::StringSliceAdditionalSpecFns;
use crate::buffer::MatchBuffer;
use crate::seqs::lemma_add_assoc;
use crate::wide::{
    encode_wide_prefix, find_terminator, lemma_terminator_index_characterizes,
    lemma_wide_bytes_len, terminator_index, wide_bytes,
};

verus! {

/// One contiguous range of the loaded image: a base virtual address
/// and the bytes found there.
pub struct Section {
    pub address: u64,
    pub data: Vec<u8>,
}

impl Section {
    /// A section occupies addresses `address .. address + len`, so the
    /// range must fit the address space.
    pub open spec fn wf(&self) -> bool {
        self.address + self.data@.len() <= u64::MAX
    }
}

/// The loaded image: its sections, in the provider's enumeration
/// order.
pub struct Image {
    pub sections: Vec<Section>,
}

impl Image {
    /// Every section's address range fits the address space.
    pub open spec fn wf(&self) -> bool {
        forall|i: int| 0 <= i < self.sections@.len() ==> (#[trigger] self.sections@[i]).wf()
    }
}

/// A compiled match specification: one byte and one must-match flag
/// per position; an unflagged position matches any byte.
pub struct ScanPattern {
    pub bytes: Vec<u8>,
    pub mask: Vec<bool>,
}

impl ScanPattern {
    /// Byte and flag per position, and at least one position: the
    /// zero-length pattern is refused at compile time.
    pub open spec fn wf(&self) -> bool {
        self.bytes@.len() == self.mask@.len() && self.bytes@.len() >= 1
    }
}

/// Whether the pattern matches `data` at offset `k`: every must-match
/// position agrees with the data there.
pub open spec fn spec_matches_at(pat: Seq<u8>, mask: Seq<bool>, data: Seq<u8>, k: int) -> bool {
    &&& 0 <= k
    &&& k + pat.len() <= data.len()
    &&& forall|j: int| 0 <= j < pat.len() && mask[j] ==> data[k + j] == pat[j]
}

/// The match offsets at or after `k`, in ascending order.
pub open spec fn match_offsets_from(pat: Seq<u8>, mask: Seq<bool>, data: Seq<u8>, k: int) -> Seq<
    int,
>
    decreases data.len() - k,
{
    if pat.len() == 0 || k + pat.len() > data.len() {
        Seq::empty()
    } else if spec_matches_at(pat, mask, data, k) {
        seq![k] + match_offsets_from(pat, mask, data, k + 1)
    } else {
        match_offsets_from(pat, mask, data, k + 1)
    }
}

/// All match offsets of the pattern in `data`, ascending.
pub open spec fn match_offsets(pat: Seq<u8>, mask: Seq<bool>, data: Seq<u8>) -> Seq<int> {
    match_offsets_from(pat, mask, data, 0)
}

/// Soundness: every reported offset is at or after `k` and really
/// matches, and the offsets come in strictly ascending order.
pub proof fn lemma_match_offsets_sound(pat: Seq<u8>, mask: Seq<bool>, data: Seq<u8>, k: int)
    ensures
        forall|j: int| 0 <= j < match_offsets_from(pat, mask, data, k).len() ==> k
            <= #[trigger] match_offsets_from(pat, mask, data, k)[j] && spec_matches_at(
            pat,
            mask,
            data,
            match_offsets_from(pat, mask, data, k)[j],
        ),
        forall|j1: int, j2: int|
            0 <= j1 < j2 < match_offsets_from(pat, mask, data, k).len() ==> match_offsets_from(
                pat,
                mask,
                data,
                k,
            )[j1] < match_offsets_from(pat, mask, data, k)[j2],
    decreases data.len() - k,
{
    if pat.len() == 0 || k + pat.len() > data.len() {
    } else {
        lemma_match_offsets_sound(pat, mask, data, k + 1);
        let cur = match_offsets_from(pat, mask, data, k);
        let rest = match_offsets_from(pat, mask, data, k + 1);
        if spec_matches_at(pat, mask, data, k) {
            assert(cur == seq![k] + rest);
            assert forall|j: int| 0 <= j < cur.len() implies k <= #[trigger] cur[j]
                && spec_matches_at(pat, mask, data, cur[j]) by {
                if j > 0 {
                    assert(cur[j] == rest[j - 1]);
                }
            }
            assert forall|j1: int, j2: int| 0 <= j1 < j2 < cur.len() implies cur[j1]
                < cur[j2] by {
                assert(cur[j2] == rest[j2 - 1]);
                assert(k + 1 <= rest[j2 - 1]);
                if j1 > 0 {
                    assert(cur[j1] == rest[j1 - 1]);
                }
            }
        } else {
            assert(cur == rest);
        }
    }
}

/// Completeness: every offset that really matches at or after `k` is
/// reported.
pub proof fn lemma_match_offsets_complete(
    pat: Seq<u8>,
    mask: Seq<bool>,
    data: Seq<u8>,
    k: int,
    m: int,
)
    requires
        pat.len() >= 1,
        k <= m,
        spec_matches_at(pat, mask, data, m),
    ensures
        match_offsets_from(pat, mask, data, k).contains(m),
    decreases m - k,
{
    let cur = match_offsets_from(pat, mask, data, k);
    if k == m {
        assert(cur[0] == k);
        assert(cur.contains(m)) by {
            assert(0 <= 0 < cur.len() && cur[0] == m);
        }
    } else {
        lemma_match_offsets_complete(pat, mask, data, k + 1, m);
        let rest = match_offsets_from(pat, mask, data, k + 1);
        let w = choose|j: int| 0 <= j < rest.len() && rest[j] == m;
        if spec_matches_at(pat, mask, data, k) {
            assert(cur == seq![k] + rest);
            assert(cur.contains(m)) by {
                assert(0 <= w + 1 < cur.len() && cur[w + 1] == m);
            }
        } else {
            assert(cur == rest);
        }
    }
}

/// With every position must-match, matching at `k` is exactly the
/// needle occurring literally at `k`: the scans for strings and wide
/// strings report the same offsets as a manual search for the needle.
pub proof fn lemma_full_mask_matches(needle: Seq<u8>, data: Seq<u8>, k: int)
    ensures
        spec_matches_at(needle, Seq::new(needle.len(), |i: int| true), data, k) <==> (0 <= k && k
            + needle.len() <= data.len() && data.subrange(k, k + needle.len() as int) == needle),
{
    let mask = Seq::new(needle.len(), |i: int| true);
    if spec_matches_at(needle, mask, data, k) {
        assert(data.subrange(k, k + needle.len() as int) =~= needle);
    }
    if 0 <= k && k + needle.len() <= data.len() && data.subrange(k, k + needle.len() as int)
        == needle {
        assert forall|j: int| 0 <= j < needle.len() && mask[j] implies data[k + j] == needle[j] by {
            assert(data.subrange(k, k + needle.len() as int)[j] == data[k + j]);
        }
    }
}

/// A full-mask scan reports offset `k` exactly when the needle occurs
/// literally at `k`: the string and wide-string scans find the same
/// offsets as a manual search of the region.
pub proof fn lemma_exact_search_offsets(needle: Seq<u8>, data: Seq<u8>, k: int)
    requires
        needle.len() >= 1,
    ensures
        match_offsets(needle, Seq::new(needle.len(), |i: int| true), data).contains(k) <==> (0
            <= k && k + needle.len() <= data.len() && data.subrange(k, k + needle.len() as int)
            == needle),
{
    let mask = Seq::new(needle.len(), |i: int| true);
    lemma_full_mask_matches(needle, data, k);
    let offs = match_offsets(needle, mask, data);
    if offs.contains(k) {
        lemma_match_offsets_sound(needle, mask, data, 0);
        let w = choose|j: int| 0 <= j < offs.len() && offs[j] == k;
        assert(spec_matches_at(needle, mask, data, offs[w]));
    }
    if 0 <= k && k + needle.len() <= data.len() && data.subrange(k, k + needle.len() as int)
        == needle {
        lemma_match_offsets_complete(needle, mask, data, 0, k);
    }
}

/// The match addresses of one section: its base address plus each
/// match offset, in ascending order.
pub open spec fn section_match_addrs(pat: Seq<u8>, mask: Seq<bool>, s: Section) -> Seq<u64> {
    match_offsets(pat, mask, s.data@).map(|_i: int, o: int| (s.address + o) as u64)
}

/// The concatenated match addresses of all sections, in enumeration
/// order.
pub open spec fn image_match_addrs(pat: Seq<u8>, mask: Seq<bool>, sections: Seq<Section>) -> Seq<
    u64,
>
    decreases sections.len(),
{
    if sections.len() == 0 {
        Seq::empty()
    } else {
        section_match_addrs(pat, mask, sections[0]) + image_match_addrs(
            pat,
            mask,
            sections.drop_first(),
        )
    }
}

/// A section's scan reports the address of every offset where the
/// pattern matches.
pub proof fn lemma_section_hit_reported(pat: Seq<u8>, mask: Seq<bool>, s: Section, k: int)
    requires
        pat.len() >= 1,
        s.wf(),
        spec_matches_at(pat, mask, s.data@, k),
    ensures
        section_match_addrs(pat, mask, s).contains((s.address + k) as u64),
{
    lemma_match_offsets_complete(pat, mask, s.data@, 0, k);
    let offs = match_offsets(pat, mask, s.data@);
    let w = choose|j: int| 0 <= j < offs.len() && offs[j] == k;
    let addrs = section_match_addrs(pat, mask, s);
    assert(addrs.contains((s.address + k) as u64)) by {
        assert(0 <= w < addrs.len() && addrs[w] == (s.address + k) as u64);
    }
}

/// Whatever one section's scan reports appears in the whole image's
/// concatenated report.
pub proof fn lemma_image_contains_section_hit(
    pat: Seq<u8>,
    mask: Seq<bool>,
    sections: Seq<Section>,
    i: int,
    a: u64,
)
    requires
        0 <= i < sections.len(),
        section_match_addrs(pat, mask, sections[i]).contains(a),
    ensures
        image_match_addrs(pat, mask, sections).contains(a),
    decreases sections.len(),
{
    let whole = image_match_addrs(pat, mask, sections);
    let head = section_match_addrs(pat, mask, sections[0]);
    let rest = image_match_addrs(pat, mask, sections.drop_first());
    assert(whole == head + rest);
    if i == 0 {
        let w = choose|j: int| 0 <= j < head.len() && head[j] == a;
        assert(whole.contains(a)) by {
            assert(0 <= w < whole.len() && whole[w] == a);
        }
    } else {
        assert(sections.drop_first()[i - 1] == sections[i]);
        lemma_image_contains_section_hit(pat, mask, sections.drop_first(), i - 1, a);
        let w = choose|j: int| 0 <= j < rest.len() && rest[j] == a;
        assert(whole.contains(a)) by {
            assert(0 <= head.len() + w < whole.len() && whole[head.len() + w] == a);
        }
    }
}

/// A parsed pattern holds at least one token.
pub proof fn lemma_parsed_nonempty(text: Seq<u8>)
    requires
        pattern_text_valid(text),
    ensures
        spec_parse_pattern(text)->Some_0.len() >= 1,
        token_bytes(spec_parse_pattern(text)->Some_0).len() == spec_parse_pattern(
            text,
        )->Some_0.len(),
        token_mask(spec_parse_pattern(text)->Some_0).len() == spec_parse_pattern(
            text,
        )->Some_0.len(),
{
}

/// A valid pattern whose decoded bytes occur literally at offset `k`
/// of a well-formed section is reported at that section's base address
/// plus `k`, whichever wildcards the pattern carries.
pub proof fn lemma_scan_pattern_finds_literal(
    text: Seq<u8>,
    sections: Seq<Section>,
    i: int,
    k: int,
)
    requires
        pattern_text_valid(text),
        0 <= i < sections.len(),
        sections[i].wf(),
        0 <= k,
        k + spec_parse_pattern(text)->Some_0.len() <= sections[i].data@.len(),
        forall|j: int| 0 <= j < spec_parse_pattern(text)->Some_0.len()
            ==> sections[i].data@[k + j] == token_bytes(spec_parse_pattern(text)->Some_0)[j],
    ensures
        image_match_addrs(
            token_bytes(spec_parse_pattern(text)->Some_0),
            token_mask(spec_parse_pattern(text)->Some_0),
            sections,
        ).contains((sections[i].address + k) as u64),
{
    let pairs = spec_parse_pattern(text)->Some_0;
    let pat = token_bytes(pairs);
    let mask = token_mask(pairs);
    lemma_parsed_nonempty(text);
    assert(spec_matches_at(pat, mask, sections[i].data@, k));
    lemma_section_hit_reported(pat, mask, sections[i], k);
    lemma_image_contains_section_hit(pat, mask, sections, i, (sections[i].address + k) as u64);
}

/// Whether the pattern matches the section's data at offset `k`.
fn matches_at(p: &ScanPattern, data: &Vec<u8>, k: usize) -> (b: bool)
    requires
        p.wf(),
        k + p.bytes@.len() <= data@.len(),
    ensures
        b == spec_matches_at(p.bytes@, p.mask@, data@, k as int),
{
    let n = p.bytes.len();
    let dn = data.len();
    let mut j: usize = 0;
    while j < n
        invariant
            j <= n,
            n == p.bytes@.len(),
            p.wf(),
            k + n <= dn,
            dn == data@.len(),
            forall|t: int| 0 <= t < j && p.mask@[t] ==> data@[k + t] == p.bytes@[t],
        decreases n - j,
    {
        if p.mask[j] && data[k + j] != p.bytes[j] {
            assert(!spec_matches_at(p.bytes@, p.mask@, data@, k as int)) by {
                assert(p.mask@[j as int] && data@[k + j] != p.bytes@[j as int]);
            }
            return false;
        }
        j += 1;
    }
    true
}

/// Scans one section, appending its match addresses to `out`.
fn scan_section(p: &ScanPattern, section: &Section, out: &mut Vec<u64>)
    requires
        p.wf(),
        section.wf(),
    ensures
        final(out)@ == old(out)@ + section_match_addrs(p.bytes@, p.mask@, *section),
{
    let ghost pb = p.bytes@;
    let ghost pm = p.mask@;
    let ghost d = section.data@;
    let ghost m0 = match_offsets(pb, pm, d);
    let n = section.data.len();
    let plen = p.bytes.len();
    if plen > n {
        proof {
            assert(m0 == Seq::<int>::empty());
            assert(section_match_addrs(pb, pm, *section).len() == 0);
            assert(out@ =~= old(out)@ + section_match_addrs(pb, pm, *section));
        }
        return ;
    }
    let limit = n - plen + 1;
    let ghost base = old(out)@.len() as int;
    let mut k: usize = 0;
    let ghost done = Seq::<int>::empty();
    while k < limit
        invariant
            k <= limit,
            limit == n - plen + 1,
            n == section.data@.len(),
            plen == p.bytes@.len(),
            p.wf(),
            section.wf(),
            pb == p.bytes@,
            pm == p.mask@,
            d == section.data@,
            base == old(out)@.len() as int,
            m0 == done + match_offsets_from(pb, pm, d, k as int),
            out@.len() == old(out)@.len() + done.len(),
            forall|t: int| 0 <= t < old(out)@.len() ==> out@[t] == old(out)@[t],
            forall|t: int| 0 <= t < done.len() ==> 0 <= #[trigger] done[t] <= n - plen
                && out@[base + t] == (section.address + done[t]) as u64,
        decreases limit - k,
    {
        let is_match = matches_at(p, &section.data, k);
        proof {
            assert(match_offsets_from(pb, pm, d, k as int) == (if spec_matches_at(
                pb,
                pm,
                d,
                k as int,
            ) {
                seq![k as int] + match_offsets_from(pb, pm, d, k + 1)
            } else {
                match_offsets_from(pb, pm, d, k + 1)
            }));
        }
        if is_match {
            let a: u64 = section.address + (k as u64);
            let ghost prev_out = out@;
            let ghost prev_done = done;
            out.push(a);
            proof {
                lemma_add_assoc(done, seq![k as int], match_offsets_from(pb, pm, d, k + 1));
                assert(done + seq![k as int] =~= done.push(k as int));
                done = done.push(k as int);
                assert forall|t: int| 0 <= t < done.len() implies 0 <= #[trigger] done[t] <= n
                    - plen && out@[base + t] == (section.address + done[t]) as u64 by {
                    if t < prev_done.len() {
                        assert(done[t] == prev_done[t]);
                        assert(base + t < prev_out.len());
                        assert(out@[base + t] == prev_out[base + t]);
                    } else {
                        assert(done[t] == k as int);
                        assert(base + t == prev_out.len());
                        assert(out@[base + t] == a);
                    }
                }
            }
        }
        k += 1;
    }
    proof {
        assert(match_offsets_from(pb, pm, d, limit as int) == Seq::<int>::empty());
        assert(m0 == done + Seq::<int>::empty());
        assert(m0 =~= done);
        assert(out@ =~= old(out)@ + section_match_addrs(pb, pm, *section));
    }
}

/// Scans every section of the image with one compiled pattern,
/// concatenating the per-section match addresses in enumeration order.
pub fn scan_image(p: &ScanPattern, image: &Image) -> (out: Vec<u64>)
    requires
        p.wf(),
        image.wf(),
    ensures
        out@ == image_match_addrs(p.bytes@, p.mask@, image.sections@),
{
    let ghost pb = p.bytes@;
    let ghost pm = p.mask@;
    let ghost secs = image.sections@;
    let mut out: Vec<u64> = Vec::new();
    let n = image.sections.len();
    let mut i: usize = 0;
    proof {
        assert(secs.skip(0) =~= secs);
        assert(Seq::<u64>::empty() + image_match_addrs(pb, pm, secs) =~= image_match_addrs(
            pb,
            pm,
            secs,
        ));
    }
    while i < n
        invariant
            i <= n,
            n == secs.len(),
            secs == image.sections@,
            pb == p.bytes@,
            pm == p.mask@,
            p.wf(),
            image.wf(),
            image_match_addrs(pb, pm, secs) == out@ + image_match_addrs(
                pb,
                pm,
                secs.skip(i as int),
            ),
        decreases n - i,
    {
        let ghost prev = out@;
        let ghost sk = secs.skip(i as int);
        proof {
            assert(sk.len() == n - i);
            assert(sk[0] == secs[i as int]);
            assert(image.sections@[i as int].wf());
            assert(image_match_addrs(pb, pm, sk) == section_match_addrs(pb, pm, sk[0])
                + image_match_addrs(pb, pm, sk.drop_first()));
            assert(sk.drop_first() =~= secs.skip(i + 1));
        }
        scan_section(p, &image.sections[i], &mut out);
        proof {
            lemma_add_assoc(
                prev,
                section_match_addrs(pb, pm, secs[i as int]),
                image_match_addrs(pb, pm, secs.skip(i + 1)),
            );
        }
        i += 1;
    }
    proof {
        assert(secs.skip(n as int) =~= Seq::<Section>::empty());
        assert(out@ + image_match_addrs(pb, pm, secs.skip(n as int)) =~= out@);
    }
    out
}

/// Whether a byte is an ASCII hexadecimal digit.
pub open spec fn is_hex_digit(b: u8) -> bool {
    (48 <= b <= 57) || (97 <= b <= 102) || (65 <= b <= 70)
}

/// The value of an ASCII hexadecimal digit.
pub open spec fn hex_value(b: u8) -> u8 {
    if 48 <= b <= 57 {
        (b - 48) as u8
    } else if 97 <= b <= 102 {
        (b - 87) as u8
    } else {
        (b - 55) as u8
    }
}

/// Whether two bytes form one token of the notation: the wildcard
/// `??`, or two hexadecimal digits.
pub open spec fn is_token(a: u8, b: u8) -> bool {
    (a == 63 && b == 63) || (is_hex_digit(a) && is_hex_digit(b))
}

/// The byte a token compiles to (zero for the wildcard).
pub open spec fn token_byte(a: u8, b: u8) -> u8 {
    if a == 63 {
        0u8
    } else {
        (16 * hex_value(a) + hex_value(b)) as u8
    }
}

/// Whether a token's byte must match (the wildcard's need not).
pub open spec fn token_masked(a: u8) -> bool {
    a != 63
}

/// Parse of the hex-with-wildcard notation: one or more two-character
/// tokens — `??` a wildcard, or two hexadecimal digits a byte —
/// separated by single spaces.  Anything else, the empty text
/// included, is invalid.
pub open spec fn spec_parse_pattern(s: Seq<u8>) -> Option<Seq<(u8, bool)>>
    decreases s.len(),
{
    if s.len() < 2 || !is_token(s[0], s[1]) {
        None
    } else if s.len() == 2 {
        Some(seq![(token_byte(s[0], s[1]), token_masked(s[0]))])
    } else if s[2] == 32 {
        match spec_parse_pattern(s.skip(3)) {
            Some(rest) => Some(seq![(token_byte(s[0], s[1]), token_masked(s[0]))] + rest),
            None => None,
        }
    } else {
        None
    }
}

/// Whether the text is a valid pattern in the notation.
pub open spec fn pattern_text_valid(s: Seq<u8>) -> bool {
    spec_parse_pattern(s) is Some
}

/// The byte at each position of a compiled token sequence.
pub open spec fn token_bytes(t: Seq<(u8, bool)>) -> Seq<u8> {
    t.map(|_i: int, x: (u8, bool)| x.0)
}

/// The must-match flag at each position of a compiled token sequence.
pub open spec fn token_mask(t: Seq<(u8, bool)>) -> Seq<bool> {
    t.map(|_i: int, x: (u8, bool)| x.1)
}

/// The token pairs a byte/mask pair stands for.
pub open spec fn pairs_of(bytes: Seq<u8>, mask: Seq<bool>) -> Seq<(u8, bool)> {
    Seq::new(bytes.len(), |i: int| (bytes[i], mask[i]))
}

/// Whether the byte is an ASCII hexadecimal digit.
fn is_hex_digit_exec(b: u8) -> (r: bool)
    ensures
        r == is_hex_digit(b),
{
    (48 <= b && b <= 57) || (97 <= b && b <= 102) || (65 <= b && b <= 70)
}

/// The value of an ASCII hexadecimal digit.
fn hex_value_exec(b: u8) -> (r: u8)
    requires
        is_hex_digit(b),
    ensures
        r == hex_value(b),
        r <= 15,
{
    if 48 <= b && b <= 57 {
        b - 48
    } else if 97 <= b && b <= 102 {
        b - 87
    } else {
        b - 55
    }
}

/// Compiles the textual hex-with-wildcard notation, or reports the
/// text invalid.
pub fn parse_pattern(s: &str) -> (r: Option<ScanPattern>)
    ensures
        ({
            let parsed = spec_parse_pattern(s.spec_bytes());
            match r {
                Some(p) => parsed is Some && p.wf() && p.bytes@ == token_bytes(parsed->Some_0)
                    && p.mask@ == token_mask(parsed->Some_0),
                None => parsed is None,
            }
        }),
{
    let ghost full = s.spec_bytes();
    let b = s.as_bytes();
    let n = b.len();
    if n < 2 {
        return None;
    }
    let mut bytes: Vec<u8> = Vec::new();
    let mut mask: Vec<bool> = Vec::new();
    let mut i: usize = 0;
    proof {
        assert(full.skip(0) =~= full);
        assert(pairs_of(bytes@, mask@) =~= Seq::<(u8, bool)>::empty());
    }
    loop
        invariant
            i <= n,
            n == b@.len(),
            b@ == full,
            full == s.spec_bytes(),
            bytes@.len() == mask@.len(),
            spec_parse_pattern(full) is Some <==> spec_parse_pattern(full.skip(i as int))
                is Some,
            spec_parse_pattern(full.skip(i as int)) is Some ==> spec_parse_pattern(full)->Some_0
                == pairs_of(bytes@, mask@) + spec_parse_pattern(full.skip(i as int))->Some_0,
        decreases n - i,
    {
        let ghost sub = full.skip(i as int);
        if n - i < 2 {
            proof {
                assert(sub.len() < 2);
            }
            return None;
        }
        let a = b[i];
        let c = b[i + 1];
        proof {
            assert(sub.len() == n - i);
            assert(sub[0] == full[i as int]);
            assert(sub[1] == full[i + 1]);
        }
        let tok_ok = (a == 63 && c == 63) || (is_hex_digit_exec(a) && is_hex_digit_exec(c));
        if !tok_ok {
            proof {
                assert(!is_token(sub[0], sub[1]));
            }
            return None;
        }
        let tb: u8 = if a == 63 {
            0
        } else {
            16 * hex_value_exec(a) + hex_value_exec(c)
        };
        let ghost prev_bytes = bytes@;
        let ghost prev_mask = mask@;
        bytes.push(tb);
        mask.push(a != 63);
        proof {
            assert(pairs_of(bytes@, mask@) =~= pairs_of(prev_bytes, prev_mask).push(
                (token_byte(sub[0], sub[1]), token_masked(sub[0])),
            ));
        }
        if i + 2 == n {
            proof {
                assert(sub.len() == 2);
                assert(spec_parse_pattern(sub) == Some(
                    seq![(token_byte(sub[0], sub[1]), token_masked(sub[0]))],
                ));
                assert(pairs_of(prev_bytes, prev_mask) + seq![
                    (token_byte(sub[0], sub[1]), token_masked(sub[0])),
                ] =~= pairs_of(bytes@, mask@));
                assert(spec_parse_pattern(full)->Some_0 == pairs_of(bytes@, mask@));
                assert(token_bytes(pairs_of(bytes@, mask@)) =~= bytes@);
                assert(token_mask(pairs_of(bytes@, mask@)) =~= mask@);
            }
            return Some(ScanPattern { bytes, mask });
        }
        if b[i + 2] != 32 {
            proof {
                assert(is_token(sub[0], sub[1]));
                assert(sub[2] == full[i + 2]);
                assert(sub.len() > 2);
                assert(sub[2] != 32);
                assert(spec_parse_pattern(sub) is None);
            }
            return None;
        }
        proof {
            assert(sub[2] == full[i + 2]);
            assert(sub.skip(3) =~= full.skip(i + 3));
            assert(spec_parse_pattern(sub) == (match spec_parse_pattern(full.skip(i + 3)) {
                Some(rest) => Some(
                    seq![(token_byte(sub[0], sub[1]), token_masked(sub[0]))] + rest,
                ),
                None => None,
            }));
            if spec_parse_pattern(full.skip(i + 3)) is Some {
                let rest = spec_parse_pattern(full.skip(i + 3))->Some_0;
                lemma_add_assoc(
                    pairs_of(prev_bytes, prev_mask),
                    seq![(token_byte(sub[0], sub[1]), token_masked(sub[0]))],
                    rest,
                );
                assert(pairs_of(prev_bytes, prev_mask) + seq![
                    (token_byte(sub[0], sub[1]), token_masked(sub[0])),
                ] =~= pairs_of(bytes@, mask@));
            }
        }
        i += 3;
    }
}

/// Compiles the textual notation and scans every section of the
/// image, concatenating the per-section match addresses in enumeration
/// order; fails exactly on invalid pattern text.
pub fn ps_scan_pattern(pattern_str: &str, image: &Image) -> (r: Option<MatchBuffer>)
    requires
        image.wf(),
    ensures
        ({
            let parsed = spec_parse_pattern(pattern_str.spec_bytes());
            match r {
                Some(buf) => parsed is Some && buf@ == image_match_addrs(
                    token_bytes(parsed->Some_0),
                    token_mask(parsed->Some_0),
                    image.sections@,
                ),
                None => parsed is None,
            }
        }),
{
    match parse_pattern(pattern_str) {
        Some(p) => {
            let v = scan_image(&p, image);
            Some(MatchBuffer::new(v))
        },
        None => None,
    }
}

/// An all-must-match mask of the given length.
fn full_mask(len: usize) -> (mask: Vec<bool>)
    ensures
        mask@ == Seq::new(len as nat, |i: int| true),
{
    let mut mask: Vec<bool> = Vec::new();
    let mut i: usize = 0;
    while i < len
        invariant
            i <= len,
            mask@ == Seq::new(i as nat, |t: int| true),
        decreases len - i,
    {
        mask.push(true);
        proof {
            assert(mask@ =~= Seq::new((i + 1) as nat, |t: int| true));
        }
        i += 1;
    }
    mask
}

/// Scans for an exact byte sequence (no wildcards); an empty needle is
/// refused, it would match everywhere.
pub fn ps_scan_string(needle: &Vec<u8>, image: &Image) -> (r: Option<MatchBuffer>)
    requires
        image.wf(),
    ensures
        r is Some <==> needle@.len() >= 1,
        r is Some ==> r->Some_0@ == image_match_addrs(
            needle@,
            Seq::new(needle@.len(), |i: int| true),
            image.sections@,
        ),
{
    let len = needle.len();
    if len == 0 {
        return None;
    }
    let mask = full_mask(len);
    let mut bytes: Vec<u8> = Vec::new();
    let mut i: usize = 0;
    while i < len
        invariant
            i <= len,
            len == needle@.len(),
            bytes@ == needle@.take(i as int),
        decreases len - i,
    {
        bytes.push(needle[i]);
        proof {
            assert(bytes@ =~= needle@.take(i + 1));
        }
        i += 1;
    }
    proof {
        assert(bytes@ =~= needle@);
    }
    let p = ScanPattern { bytes, mask };
    let v = scan_image(&p, image);
    Some(MatchBuffer::new(v))
}

/// Scans for a zero-terminated wide string: the units before the first
/// zero, re-encoded as little-endian byte pairs, searched exactly.  A
/// wide string whose first unit is the terminator is refused.
pub fn ps_scan_wstring(units: &[u16], image: &Image) -> (r: Option<MatchBuffer>)
    requires
        image.wf(),
    ensures
        ({
            let t = terminator_index(units@);
            let needle = wide_bytes(units@.take(t));
            &&& (r is Some <==> t > 0)
            &&& r is Some ==> r->Some_0@ == image_match_addrs(
                needle,
                Seq::new(needle.len(), |i: int| true),
                image.sections@,
            )
        }),
{
    let t = find_terminator(units);
    proof {
        lemma_terminator_index_characterizes(units@);
    }
    if t == 0 {
        return None;
    }
    let bytes = encode_wide_prefix(units, t);
    proof {
        lemma_wide_bytes_len(units@.take(t as int));
    }
    let mask = full_mask(bytes.len());
    let p = ScanPattern { bytes, mask };
    let v = scan_image(&p, image);
    Some(MatchBuffer::new(v))
}

/// Collects a cross-reference search: the per-section lists of
/// referencing addresses, as the instruction-decoding collaborator
/// reported them section by section, concatenated in enumeration
/// order.
pub fn ps_scan_xref_collect(section_xrefs: &Vec<Vec<u64>>) -> (r: MatchBuffer)
    ensures
        r@ == section_xrefs.deep_view().flatten(),
{
    let ghost dv = section_xrefs.deep_view();
    let n = section_xrefs.len();
    let mut out: Vec<u64> = Vec::new();
    let mut i: usize = 0;
    proof {
        assert(dv.len() == section_xrefs@.len());
        assert(dv.skip(0) =~= dv);
        assert(Seq::<u64>::empty() + dv.flatten() =~= dv.flatten());
    }
    while i < n
        invariant
            i <= n,
            n == dv.len(),
            dv == section_xrefs.deep_view(),
            dv.flatten() == out@ + dv.skip(i as int).flatten(),
        decreases n - i,
    {
        let ghost prev = out@;
        let ghost sk = dv.skip(i as int);
        proof {
            assert(sk[0] == dv[i as int]);
            assert(dv[i as int] == section_xrefs@[i as int]@);
            assert(sk.flatten() == sk.first() + sk.drop_first().flatten());
            assert(sk.first() == sk[0]);
            assert(sk.drop_first() =~= dv.skip(i + 1));
        }
        let sec = &section_xrefs[i];
        let m = sec.len();
        let mut j: usize = 0;
        while j < m
            invariant
                j <= m,
                m == sec@.len(),
                out@ == prev + sec@.take(j as int),
            decreases m - j,
        {
            out.push(sec[j]);
            proof {
                assert(prev + sec@.take(j as int) + seq![sec@[j as int]] =~= prev + sec@.take(
                    j + 1,
                ));
            }
            j += 1;
        }
        proof {
            assert(sec@.take(m as int) =~= sec@);
            lemma_add_assoc(prev, dv[i as int], dv.skip(i + 1).flatten());
        }
        i += 1;
    }
    proof {
        assert(dv.skip(n as int) =~= Seq::<Seq<u64>>::empty());
        assert(Seq::<Seq<u64>>::empty().flatten() == Seq::<u64>::empty());
        assert(out@ + Seq::<u64>::empty() =~= out@);
    }
    MatchBuffer::new(out)
}

/// The size the vtable-walking collaborator estimated, or zero when
/// the image could not be read or the walk failed.
pub fn ps_get_vtable_size(walk: Option<u64>) -> (r: u64)
    ensures
        r == (match walk {
            Some(s) => s,
            None => 0u64,
        }),
{
    match walk {
        Some(s) => s,
        None => 0,
    }
}

} // verus!

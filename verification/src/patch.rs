use vstd::prelude::*;

verus! {

/// What qbsdiff's `Bspatch` produces from a source image and a bsdiff-4 patch: the target
/// bytes, or the text of the error it reports.
pub uninterp spec fn bspatch_result(source: Seq<u8>, patch: Seq<u8>) -> Result<Seq<u8>, Seq<char>>;

/// What the `bsdiff` crate's `diff` writes for an old and a new image: the patch bytes,
/// or the text of the error it reports.
pub uninterp spec fn bsdiff_result(old: Seq<u8>, new: Seq<u8>) -> Result<Seq<u8>, Seq<char>>;

/// The bytes or the error text that a result holds.
pub open spec fn view_result(r: &Result<Vec<u8>, String>) -> Result<Seq<u8>, Seq<char>> {
    match r {
        Ok(v) => Ok(v@),
        Err(e) => Err(e@),
    }
}

/// The magic header of a bsdiff-4 patch: "BSDIFF40".
pub open spec fn bsdiff40_magic() -> Seq<u8> {
    seq![0x42u8, 0x53u8, 0x44u8, 0x49u8, 0x46u8, 0x46u8, 0x34u8, 0x30u8]
}

/// The unsigned little-endian 64-bit number in `b[at..at + 8]`.
pub open spec fn le_u64(b: Seq<u8>, at: int) -> nat {
    (b[at] + 0x100 * b[at + 1] + 0x1_0000 * b[at + 2] + 0x100_0000 * b[at + 3] + 0x1_0000_0000 * b[at + 4]
        + 0x100_0000_0000 * b[at + 5] + 0x1_0000_0000_0000 * b[at + 6] + 0x100_0000_0000_0000 * b[at + 7]) as nat
}

/// A size field of a bsdiff-4 header as the patcher takes it: the field is a sign and a
/// magnitude, and a negative value, taken as an unsigned 64-bit number, lies above 2^63.
pub open spec fn header_size(b: Seq<u8>, at: int) -> nat {
    let x = le_u64(b, at);
    if x <= 0x8000_0000_0000_0000 {
        x
    } else {
        (0x1_8000_0000_0000_0000 - x) as nat
    }
}

/// The patch has the "BSDIFF40" magic and a full 32-byte header.
pub open spec fn has_bsdiff40_header(patch: Seq<u8>) -> bool {
    patch.len() >= 32 && patch.subrange(0, 8) == bsdiff40_magic()
}

/// The patcher can check the header's sizes against the patch's length: 32 plus the
/// two compressed sizes fits in 64 bits. (The patcher adds them unchecked, and on a
/// header where they do not fit it panics.)
pub open spec fn header_sizes_fit(patch: Seq<u8>) -> bool {
    !has_bsdiff40_header(patch) || 32 + header_size(patch, 8) + header_size(patch, 16) < 0x1_0000_0000_0000_0000
}

/// The header's compressed sizes run past the end of the patch.
pub open spec fn header_sizes_too_large(patch: Seq<u8>) -> bool {
    has_bsdiff40_header(patch) && 32 + header_size(patch, 8) + header_size(patch, 16) > patch.len()
}

/// Apply a bsdiff-4 patch to `source` with `qbsdiff::Bspatch::new(patch)` and `apply`,
/// collecting the target in memory; an error becomes its message.
///
/// Trusted: the result is `bspatch_result` of the two inputs (the patcher is a
/// deterministic function of them), and, as the header check of `Bspatch::new` shows, a
/// patch shorter than 32 bytes, without the "BSDIFF40" magic, or whose compressed sizes
/// run past its end is refused. A header whose sizes overflow that check is left out.
#[verifier::external_body]
pub(crate) fn apply_bspatch(source: &[u8], patch: &[u8]) -> (res: Result<Vec<u8>, String>)
    requires
        header_sizes_fit(patch@),
    ensures
        bspatch_result(source@, patch@) == view_result(&res),
        !has_bsdiff40_header(patch@) || header_sizes_too_large(patch@) ==> res is Err,
{
    let patcher = match qbsdiff::Bspatch::new(patch) {
        Ok(p) => p,
        Err(e) => return Err(e.to_string()),
    };
    let mut target = Vec::new();
    match patcher.apply(source, std::io::Cursor::new(&mut target)) {
        Ok(_) => Ok(target),
        Err(e) => Err(e.to_string()),
    }
}

/// Compute a patch from `old` to `new` with `bsdiff::diff`, written into memory;
/// an error becomes its message.
///
/// Trusted: the result is `bsdiff_result` of the two inputs (the diff is a deterministic
/// function of them), and it is `Ok`: the differ's only failure is a failing write, and
/// writing into a `Vec` does not fail. Nothing more about the patch bytes is stated.
#[verifier::external_body]
pub(crate) fn diff_bytes(old: &[u8], new: &[u8]) -> (res: Result<Vec<u8>, String>)
    ensures
        bsdiff_result(old@, new@) == view_result(&res),
        res is Ok,
{
    let mut patch = Vec::new();
    match bsdiff::diff(old, new, &mut patch) {
        Ok(()) => Ok(patch),
        Err(e) => Err(e.to_string()),
    }
}

fn le_u64_at(b: &[u8], at: usize) -> (x: u128)
    requires
        at + 8 <= b@.len(),
    ensures
        x == le_u64(b@, at as int),
{
    b[at] as u128 + 0x100 * (b[at + 1] as u128) + 0x1_0000 * (b[at + 2] as u128) + 0x100_0000 * (b[at + 3] as u128)
        + 0x1_0000_0000 * (b[at + 4] as u128) + 0x100_0000_0000 * (b[at + 5] as u128) + 0x1_0000_0000_0000 * (b[at
        + 6] as u128) + 0x100_0000_0000_0000 * (b[at + 7] as u128)
}

fn header_size_at(b: &[u8], at: usize) -> (n: u128)
    requires
        at + 8 <= b@.len(),
    ensures
        n == header_size(b@, at as int),
        n < 0x1_0000_0000_0000_0000,
{
    let x = le_u64_at(b, at);
    if x <= 0x8000_0000_0000_0000 {
        x
    } else {
        0x1_8000_0000_0000_0000 - x
    }
}

/// Whether the patcher can check this patch's header sizes (see `header_sizes_fit`).
pub fn patch_header_fits(patch: &[u8]) -> (r: bool)
    ensures
        r == header_sizes_fit(patch@),
{
    if patch.len() < 32 {
        return true;
    }
    let magic: [u8; 8] = [0x42, 0x53, 0x44, 0x49, 0x46, 0x46, 0x34, 0x30];
    let mut i: usize = 0;
    while i < 8
        invariant
            i <= 8,
            patch@.len() >= 32,
            magic@ == bsdiff40_magic(),
            forall|k: int| 0 <= k < i ==> patch@[k] == magic@[k],
        decreases 8 - i,
    {
        if patch[i] != magic[i] {
            assert(patch@.subrange(0, 8)[i as int] != bsdiff40_magic()[i as int]);
            return true;
        }
        i = i + 1;
    }
    assert(patch@.subrange(0, 8) =~= bsdiff40_magic());
    32 + header_size_at(patch, 8) + header_size_at(patch, 16) < 0x1_0000_0000_0000_0000
}

} // verus!

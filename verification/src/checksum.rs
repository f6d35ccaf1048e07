//! Streaming MD5 checksum verification.
//!
//! The digest itself comes from the `md5` crate through trusted wrappers; the
//! streaming accumulation, the hex rendering and the comparison against the
//! published digest are verified. A digest mismatch is an ordinary `false`,
//! distinct from I/O errors, which the caller keeps.

use vstd::prelude::*;

use crate::hexfmt::hex_eq;
use crate::hexfmt::hex_eq_ignore_case;
use crate::hexfmt::hex_encode;
use crate::hexfmt::hex_of;
use crate::strutil::str_ends_with;

verus! {

#[verifier::external_type_specification]
#[verifier::external_body]
pub struct ExMd5Context(md5::Context);

/// The bytes an `md5::Context` has consumed so far.
pub uninterp spec fn md5_absorbed(ctx: md5::Context) -> Seq<u8>;

/// The 16-byte MD5 digest of `data`; a function of the bytes alone.
pub uninterp spec fn md5_of(data: Seq<u8>) -> Seq<u8>;

/// Relies on md5::Context::new: a fresh context has consumed nothing.
#[verifier::external_body]
fn md5_context_new() -> (ctx: md5::Context)
    ensures
        md5_absorbed(ctx) == Seq::<u8>::empty(),
{
    md5::Context::new()
}

/// Relies on md5::Context::consume: feeding more data appends it to what the
/// context has consumed.
#[verifier::external_body]
fn md5_context_consume(ctx: &mut md5::Context, data: &[u8])
    ensures
        md5_absorbed(*final(ctx)) == md5_absorbed(*old(ctx)) + data@,
{
    ctx.consume(data);
}

/// Relies on md5::Context::finalize: the returned digest is the 16-byte MD5
/// of everything the context consumed.
#[verifier::external_body]
fn md5_context_finalize(ctx: md5::Context) -> (digest: Vec<u8>)
    ensures
        digest@ == md5_of(md5_absorbed(ctx)),
        digest@.len() == 16,
{
    ctx.finalize().0.to_vec()
}

/// The lower-case hex MD5 digest of `data`.
pub open spec fn checksum_hex(data: Seq<u8>) -> Seq<char> {
    hex_of(md5_of(data))
}

/// An incremental checksum of a byte stream. The caller feeds the stream in
/// chunks of any size; the digest depends only on the concatenated bytes.
pub struct ChecksumState {
    ctx: md5::Context,
}

impl View for ChecksumState {
    type V = Seq<u8>;

    closed spec fn view(&self) -> Seq<u8> {
        md5_absorbed(self.ctx)
    }
}

impl ChecksumState {
    /// A checksum over the empty stream.
    pub fn new() -> (r: ChecksumState)
        ensures
            r@ == Seq::<u8>::empty(),
    {
        ChecksumState { ctx: md5_context_new() }
    }

    /// Appends `chunk` to the stream being summed.
    pub fn update(&mut self, chunk: &[u8])
        ensures
            final(self)@ == old(self)@ + chunk@,
    {
        md5_context_consume(&mut self.ctx, chunk);
    }

    /// The lower-case hex digest of everything fed so far.
    pub fn finalize(self) -> (r: String)
        ensures
            r@ == checksum_hex(self@),
    {
        let digest = md5_context_finalize(self.ctx);
        hex_encode(digest.as_slice())
    }
}

/// The checksum of a byte slice taken in one piece.
pub fn checksum_of_bytes(data: &[u8]) -> (r: String)
    ensures
        r@ == checksum_hex(data@),
{
    let mut state = ChecksumState::new();
    state.update(data);
    proof {
        assert(Seq::<u8>::empty() + data@ =~= data@);
    }
    state.finalize()
}

/// The concatenation of a sequence of chunks.
pub open spec fn concat_chunks(chunks: Seq<Seq<u8>>) -> Seq<u8>
    decreases chunks.len(),
{
    if chunks.len() == 0 {
        Seq::empty()
    } else {
        concat_chunks(chunks.drop_last()) + chunks.last()
    }
}

/// The checksum of a stream fed chunk by chunk. However the bytes are split,
/// the result is the digest of their concatenation.
pub fn checksum_of_chunks(chunks: &Vec<Vec<u8>>) -> (r: String)
    ensures
        r@ == checksum_hex(concat_chunks(chunks.deep_view())),
{
    let mut state = ChecksumState::new();
    let n = chunks.len();
    let mut i: usize = 0;
    proof {
        assert(concat_chunks(chunks.deep_view().take(0)) =~= Seq::<u8>::empty());
    }
    while i < n
        invariant
            i <= n,
            n == chunks@.len(),
            state@ == concat_chunks(chunks.deep_view().take(i as int)),
        decreases n - i,
    {
        state.update(chunks[i].as_slice());
        proof {
            assert(chunks.deep_view().take(i + 1).drop_last() =~= chunks.deep_view().take(
                i as int,
            ));
            assert(chunks.deep_view().take(i + 1).last() == chunks.deep_view()[i as int]);
            assert(chunks.deep_view()[i as int] == chunks@[i as int]@);
        }
        i = i + 1;
    }
    proof {
        assert(chunks.deep_view().take(n as int) =~= chunks.deep_view());
    }
    state.finalize()
}

/// The digest of a byte stream is a function of its bytes alone: two streams
/// holding the same bytes have the same checksum, however they are read.
pub proof fn lemma_checksum_deterministic(a: Seq<u8>, b: Seq<u8>)
    requires
        a == b,
    ensures
        checksum_hex(a) == checksum_hex(b),
{
}

/// Whether a computed digest equals a published one. Hex letter case is
/// ignored; a mismatch is a normal `false` outcome, never an error.
pub fn digests_match(actual: &str, expected: &str) -> (r: bool)
    ensures
        r == hex_eq_ignore_case(actual@, expected@),
{
    hex_eq(actual, expected)
}

/// The checksum companion URL of a database archive URL: the trailing
/// `.sql.zip` or `.sql.zst` replaced by `.sql.md5`; `None` for any other URL.
pub fn get_link_to_db_md5(url: &str) -> (r: Option<String>)
    ensures
        ({
            let n = url@.len() as int;
            let ends_zip = n >= 8 && url@.skip(n - 8) == ".sql.zip"@;
            let ends_zst = n >= 8 && url@.skip(n - 8) == ".sql.zst"@;
            if ends_zip || ends_zst {
                r is Some && r->0@ == url@.take(n - 8) + ".sql.md5"@
            } else {
                r is None
            }
        }),
{
    proof {
        reveal_strlit(".sql.zip");
        reveal_strlit(".sql.zst");
    }
    if str_ends_with(url, ".sql.zip") || str_ends_with(url, ".sql.zst") {
        let n = url.unicode_len();
        let stem = url.substring_char(0, n - 8);
        let mut r = String::new();
        r.append(stem);
        r.append(".sql.md5");
        proof {
            assert(url@.subrange(0, url@.len() - 8) =~= url@.take(url@.len() - 8));
        }
        Some(r)
    } else {
        None
    }
}

/// The checksum companion URL of a plain archive URL: `.md5` appended.
pub fn get_link_to_archive_md5(url: &str) -> (r: String)
    ensures
        r@ == url@ + ".md5"@,
{
    let mut r = String::new();
    r.append(url);
    r.append(".md5");
    r
}

} // verus!

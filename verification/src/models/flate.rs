//! Packing of the model asset: a file is cut into parts of a fixed size,
//! each compressed on its own, and put together again from its parts. The
//! digest of the whole is computed on the way.

use crate::errors::{AidenErrors, AppResult};
use crate::text::{decimal, decimal_u64, push_char};
use vstd::prelude::*;

verus! {

/// The gzip stream that the encoder writes for the given bytes at its
/// fastest level, or `None` where it fails on them.
pub uninterp spec fn gzip_of(data: Seq<u8>) -> Option<Seq<u8>>;

/// The bytes that the decoder reads from a gzip stream, or `None` where it
/// fails on the stream.
pub uninterp spec fn gunzip_of(stream: Seq<u8>) -> Option<Seq<u8>>;

/// The MD5 digest of the given bytes.
pub uninterp spec fn md5_of(data: Seq<u8>) -> Seq<u8>;

/// `GzEncoder` of flate2, made with `Compression::fast`, fed the bytes
/// with `write_all` and closed with `finish`: the gzip stream of the
/// bytes, from which the decoder reads the bytes again, or the failure as
/// its text.
#[verifier::external_body]
fn gzip(data: &[u8]) -> (result: Result<Vec<u8>, String>)
    ensures
        result is Ok <==> gzip_of(data@) is Some,
        result is Ok ==> result->Ok_0@ == gzip_of(data@)->0 && gunzip_of(result->Ok_0@) == Some(data@),
{
    let mut encoder = flate2::write::GzEncoder::new(Vec::new(), flate2::Compression::fast());
    match std::io::Write::write_all(&mut encoder, data) {
        Ok(()) => encoder.finish().map_err(|e| e.to_string()),
        Err(e) => Err(e.to_string()),
    }
}

/// `GzDecoder` of flate2, read to its end: the bytes of the stream, or
/// the failure as its text.
#[verifier::external_body]
fn gunzip(stream: &[u8]) -> (result: Result<Vec<u8>, String>)
    ensures
        result is Ok <==> gunzip_of(stream@) is Some,
        result is Ok ==> result->Ok_0@ == gunzip_of(stream@)->0,
{
    let mut decoder = flate2::read::GzDecoder::new(stream);
    let mut buffer = Vec::new();
    match std::io::Read::read_to_end(&mut decoder, &mut buffer) {
        Ok(_) => Ok(buffer),
        Err(e) => Err(e.to_string()),
    }
}

/// `md5::compute`: the sixteen bytes of the digest.
#[verifier::external_body]
fn md5_digest(data: &[u8]) -> (digest: Vec<u8>)
    ensures
        digest@ == md5_of(data@),
        digest@.len() == 16,
{
    md5::compute(data).0.to_vec()
}

/// The character that writes a hexadecimal digit, in lower case.
pub open spec fn hex_char(d: int) -> char {
    if d == 0 {
        '0'
    } else if d == 1 {
        '1'
    } else if d == 2 {
        '2'
    } else if d == 3 {
        '3'
    } else if d == 4 {
        '4'
    } else if d == 5 {
        '5'
    } else if d == 6 {
        '6'
    } else if d == 7 {
        '7'
    } else if d == 8 {
        '8'
    } else if d == 9 {
        '9'
    } else if d == 10 {
        'a'
    } else if d == 11 {
        'b'
    } else if d == 12 {
        'c'
    } else if d == 13 {
        'd'
    } else if d == 14 {
        'e'
    } else {
        'f'
    }
}

/// The bytes in hexadecimal: two digits in lower case for each byte.
pub open spec fn lower_hex(bytes: Seq<u8>) -> Seq<char>
    decreases bytes.len(),
{
    if bytes.len() == 0 {
        Seq::empty()
    } else {
        lower_hex(bytes.drop_last()).push(hex_char(bytes.last() as int / 16)).push(
            hex_char(bytes.last() as int % 16),
        )
    }
}

fn hex_digit(d: u8) -> (c: char)
    requires
        d < 16,
    ensures
        c == hex_char(d as int),
{
    if d == 0 {
        '0'
    } else if d == 1 {
        '1'
    } else if d == 2 {
        '2'
    } else if d == 3 {
        '3'
    } else if d == 4 {
        '4'
    } else if d == 5 {
        '5'
    } else if d == 6 {
        '6'
    } else if d == 7 {
        '7'
    } else if d == 8 {
        '8'
    } else if d == 9 {
        '9'
    } else if d == 10 {
        'a'
    } else if d == 11 {
        'b'
    } else if d == 12 {
        'c'
    } else if d == 13 {
        'd'
    } else if d == 14 {
        'e'
    } else {
        'f'
    }
}

/// Writes bytes in hexadecimal.
pub fn to_lower_hex(bytes: &[u8]) -> (text: String)
    ensures
        text@ == lower_hex(bytes@),
{
    let mut text = String::new();
    let mut i: usize = 0;
    assert(text@ =~= lower_hex(bytes@.take(0)));
    while i < bytes.len()
        invariant
            i <= bytes.len(),
            text@ == lower_hex(bytes@.take(i as int)),
        decreases bytes.len() - i,
    {
        let b = bytes[i];
        push_char(&mut text, hex_digit(b / 16));
        push_char(&mut text, hex_digit(b % 16));
        i = i + 1;
        proof {
            let seen = bytes@.take(i as int);
            assert(seen.drop_last() =~= bytes@.take(i as int - 1));
            assert(seen.last() == b);
        }
    }
    assert(bytes@.take(i as int) =~= bytes@);
    text
}

/// The digest of the given bytes, in hexadecimal.
pub fn calculate_md5(data: &[u8]) -> (digest: String)
    ensures
        digest@ == lower_hex(md5_of(data@)),
{
    let digest = md5_digest(data);
    to_lower_hex(digest.as_slice())
}

/// The bytes cut into parts of `chunk_size` bytes, the last one shorter
/// where the length is no multiple of it. Nothing is cut with a part size
/// of zero.
pub open spec fn chunked(data: Seq<u8>, chunk_size: nat) -> Seq<Seq<u8>>
    decreases data.len(),
{
    if chunk_size == 0 || data.len() == 0 {
        Seq::empty()
    } else if data.len() <= chunk_size {
        seq![data]
    } else {
        seq![data.take(chunk_size as int)] + chunked(data.skip(chunk_size as int), chunk_size)
    }
}

/// The bytes that parts hold, as sequences.
pub open spec fn part_views(parts: Seq<Vec<u8>>) -> Seq<Seq<u8>> {
    parts.map_values(|p: Vec<u8>| p@)
}

/// The parts put together, in their order.
pub open spec fn merged(parts: Seq<Seq<u8>>) -> Seq<u8>
    decreases parts.len(),
{
    if parts.len() == 0 {
        Seq::empty()
    } else {
        merged(parts.drop_last()) + parts.last()
    }
}

/// The name of the file that holds the part with the given number, the
/// first part having the number one.
pub fn part_name(number: u64) -> (name: String)
    ensures
        name@ == "part_"@ + decimal(number as int) + ".gz"@,
{
    let mut name = String::from_str("part_");
    let digits = decimal_u64(number);
    name.append(digits.as_str());
    name.append(".gz");
    name
}

/// A file cut into compressed parts, with the digest of the file.
#[derive(Debug)]
pub struct Packed {
    pub parts: Vec<Vec<u8>>,
    pub md5: String,
}

/// A file put together from its parts, with its digest.
#[derive(Debug)]
pub struct Unpacked {
    pub data: Vec<u8>,
    pub md5: String,
}

/// The bytes over which the digest of a packing is computed: all of them,
/// or none with a part size of zero.
pub open spec fn packed_bytes(input: Seq<u8>, chunk_size: nat) -> Seq<u8> {
    if chunk_size == 0 {
        Seq::empty()
    } else {
        input
    }
}

/// Whether the encoder succeeds on every one of the chunks.
pub open spec fn all_packable(chunks: Seq<Seq<u8>>) -> bool {
    forall|i: int| 0 <= i < chunks.len() ==> gzip_of(#[trigger] chunks[i]) is Some
}

/// Cuts the bytes of a file into parts of `chunk_size` bytes and
/// compresses each part on its own. It succeeds exactly where the encoder
/// succeeds on every part, and so always where there is nothing to
/// compress, because the file is empty or the part size is zero. The parts
/// that it gives are read by the decoder, and put together again they are
/// the bytes that were packed.
pub fn split_and_compress_file(input: &[u8], chunk_size: usize) -> (result: AppResult<Packed>)
    ensures
        result is Ok <==> all_packable(chunked(input@, chunk_size as nat)),
        input@.len() == 0 || chunk_size == 0 ==> result is Ok,
        result is Ok ==> {
            &&& part_views(result->Ok_0.parts@) == chunked(input@, chunk_size as nat).map_values(
                |c: Seq<u8>| gzip_of(c)->0,
            )
            &&& result->Ok_0.md5@ == lower_hex(md5_of(packed_bytes(input@, chunk_size as nat)))
            &&& all_readable(part_views(result->Ok_0.parts@))
            &&& unpacked(part_views(result->Ok_0.parts@)) == packed_bytes(input@, chunk_size as nat)
        },
        result is Err ==> result->Err_0 is StdIo,
{
    let ghost f = |c: Seq<u8>| gzip_of(c)->0;
    let ghost all = chunked(input@, chunk_size as nat);
    let mut parts: Vec<Vec<u8>> = Vec::new();
    if chunk_size == 0 {
        let nothing: Vec<u8> = Vec::new();
        let md5 = calculate_md5(nothing.as_slice());
        assert(nothing@ =~= packed_bytes(input@, 0));
        assert(part_views(parts@) =~= all.map_values(f));
        assert(unpacked(part_views(parts@)) =~= packed_bytes(input@, 0));
        return Ok(Packed { parts, md5 });
    }
    let ghost mut done: Seq<Seq<u8>> = Seq::empty();
    let mut start: usize = 0;
    proof {
        assert(input@.skip(0) =~= input@);
        assert(done + chunked(input@.skip(0), chunk_size as nat) =~= all);
        assert(part_views(parts@) =~= done.map_values(f));
        assert(unpacked(part_views(parts@)) =~= input@.take(0));
    }
    while start < input.len()
        invariant
            chunk_size > 0,
            start <= input.len(),
            f == (|c: Seq<u8>| gzip_of(c)->0),
            all == chunked(input@, chunk_size as nat),
            done + chunked(input@.skip(start as int), chunk_size as nat) == all,
            all_packable(done),
            part_views(parts@) == done.map_values(f),
            all_readable(part_views(parts@)),
            unpacked(part_views(parts@)) == input@.take(start as int),
        decreases input.len() - start,
    {
        let end = if input.len() - start <= chunk_size {
            input.len()
        } else {
            start + chunk_size
        };
        let chunk = vstd::slice::slice_subrange(input, start, end);
        let ghost rest = input@.skip(start as int);
        proof {
            assert(chunk@ =~= rest.take(end - start));
            if input.len() - start <= chunk_size {
                assert(rest.take(end - start) =~= rest);
                assert(chunked(rest, chunk_size as nat) =~= seq![chunk@]);
                assert(input@.skip(end as int).len() == 0);
                assert(chunked(input@.skip(end as int), chunk_size as nat) =~= Seq::<Seq<u8>>::empty());
            } else {
                assert(rest.skip(chunk_size as int) =~= input@.skip(end as int));
            }
            assert(chunked(rest, chunk_size as nat) =~= seq![chunk@] + chunked(
                input@.skip(end as int),
                chunk_size as nat,
            ));
            assert(all[done.len() as int] == chunk@);
        }
        match gzip(chunk) {
            Err(text) => {
                assert(!all_packable(all));
                return Err(AidenErrors::StdIo(text));
            },
            Ok(part) => {
                let ghost before = parts@;
                let ghost done_before = done;
                parts.push(part);
                proof {
                    done = done.push(chunk@);
                    assert(done + chunked(input@.skip(end as int), chunk_size as nat) =~= all);
                    assert(part_views(parts@) =~= part_views(before).push(gzip_of(chunk@)->0));
                    assert(part_views(parts@) =~= done.map_values(f));
                    assert forall|i: int| 0 <= i < done.len() implies gzip_of(#[trigger] done[i]) is Some by {
                        if i < done_before.len() {
                            assert(done[i] == done_before[i]);
                        }
                    }
                    let g = |p: Seq<u8>| gunzip_of(p)->0;
                    let read = part_views(parts@).map_values(g);
                    assert(read.drop_last() =~= part_views(before).map_values(g));
                    assert(read.last() == chunk@);
                    assert(input@.take(end as int) =~= input@.take(start as int) + chunk@);
                    assert forall|i: int| 0 <= i < part_views(parts@).len() implies gunzip_of(
                        #[trigger] part_views(parts@)[i],
                    ) is Some by {
                        if i < before.len() {
                            assert(part_views(parts@)[i] == part_views(before)[i]);
                        }
                    }
                }
            },
        }
        start = end;
    }
    proof {
        assert(chunked(input@.skip(start as int), chunk_size as nat) =~= Seq::<Seq<u8>>::empty());
        assert(done =~= all);
        assert(input@.take(start as int) =~= input@);
    }
    let md5 = calculate_md5(input);
    Ok(Packed { parts, md5 })
}

/// Whether every part is a gzip stream that the decoder reads.
pub open spec fn all_readable(parts: Seq<Seq<u8>>) -> bool {
    forall|i: int| 0 <= i < parts.len() ==> gunzip_of(#[trigger] parts[i]) is Some
}

/// The bytes that the parts hold once each is decompressed.
pub open spec fn unpacked(parts: Seq<Seq<u8>>) -> Seq<u8> {
    merged(parts.map_values(|p: Seq<u8>| gunzip_of(p)->0))
}

/// Decompresses the parts of a file and puts them together, in their
/// order. It fails exactly where the decoder fails on a part.
pub fn decompress_and_merge_files(parts: &Vec<Vec<u8>>) -> (result: AppResult<Unpacked>)
    ensures
        result is Ok <==> all_readable(part_views(parts@)),
        result is Ok ==> result->Ok_0.data@ == unpacked(part_views(parts@)) && result->Ok_0.md5@ == lower_hex(
            md5_of(result->Ok_0.data@),
        ),
        result is Err ==> result->Err_0 is StdIo,
{
    let ghost views = part_views(parts@);
    let ghost f = |p: Seq<u8>| gunzip_of(p)->0;
    let mut data: Vec<u8> = Vec::new();
    let mut i: usize = 0;
    assert(data@ =~= merged(views.take(0).map_values(f)));
    while i < parts.len()
        invariant
            i <= parts.len(),
            views == part_views(parts@),
            f == (|p: Seq<u8>| gunzip_of(p)->0),
            all_readable(views.take(i as int)),
            data@ == merged(views.take(i as int).map_values(f)),
        decreases parts.len() - i,
    {
        match gunzip(parts[i].as_slice()) {
            Err(text) => {
                assert(gunzip_of(views[i as int]) is None);
                return Err(AidenErrors::StdIo(text));
            },
            Ok(mut bytes) => {
                let ghost before = data@;
                let ghost added = bytes@;
                data.append(&mut bytes);
                i = i + 1;
                proof {
                    let seen = views.take(i as int).map_values(f);
                    assert(seen.drop_last() =~= views.take(i as int - 1).map_values(f));
                    assert(seen.last() == added);
                    assert(data@ =~= merged(seen));
                    assert forall|k: int| 0 <= k < views.take(i as int).len() implies gunzip_of(
                        #[trigger] views.take(i as int)[k],
                    ) is Some by {
                        if k < i - 1 {
                            assert(views.take(i as int)[k] == views.take(i as int - 1)[k]);
                        }
                    }
                }
            },
        }
    }
    assert(views.take(i as int) =~= views);
    let md5 = calculate_md5(data.as_slice());
    Ok(Unpacked { data, md5 })
}

} // verus!

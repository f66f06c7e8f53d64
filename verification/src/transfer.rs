//! The transfer drivers' decision logic: cutting a file into chunks for
//! the transport, choosing the output path, the prompt policy, and the
//! post-transfer hash check.  Reading and writing files, prompting, and
//! moving datagrams stay with the embedding binary.

use vstd::prelude::*;
use vstd::string::StrSliceExecFns;

use crate::error::NudgeError;
use crate::error::Result;
use crate::reliable_udp::concat_chunks;
use crate::utils::AnonymousString;

verus! {

/// The chunk vector as a sequence of byte sequences.
pub open spec fn chunk_views(chunks: Seq<Vec<u8>>) -> Seq<Seq<u8>> {
    chunks.map_values(|c: Vec<u8>| c@)
}

/// Cuts the file bytes into the WRITE payloads the sender will emit, in
/// order: every chunk but the last is exactly `chunk_size` bytes, none is
/// empty, and laid end to end they are the file again.
pub fn split_into_chunks(data: &Vec<u8>, chunk_size: usize) -> (r: Vec<Vec<u8>>)
    requires
        chunk_size > 0,
    ensures
        concat_chunks(chunk_views(r@)) == data@,
        forall|j: int| 0 <= j < r@.len() ==> 0 < (#[trigger] r@[j])@.len() <= chunk_size,
        forall|j: int| 0 <= j < r@.len() - 1 ==> (#[trigger] r@[j])@.len() == chunk_size,
        r@.len() <= data@.len(),
        data@.len() == 0 ==> r@.len() == 0,
{
    let mut chunks: Vec<Vec<u8>> = Vec::new();
    let mut i: usize = 0;
    proof {
        assert(chunk_views(chunks@) =~= Seq::<Seq<u8>>::empty());
        assert(data@.take(0) =~= Seq::<u8>::empty());
    }
    while i < data.len()
        invariant
            chunk_size > 0,
            i <= data@.len(),
            chunks@.len() <= i,
            concat_chunks(chunk_views(chunks@)) == data@.take(i as int),
            forall|j: int| 0 <= j < chunks@.len() ==> 0 < (#[trigger] chunks@[j])@.len()
                <= chunk_size,
            i < data@.len() ==> forall|j: int|
                0 <= j < chunks@.len() ==> (#[trigger] chunks@[j])@.len() == chunk_size,
            forall|j: int| 0 <= j < chunks@.len() - 1 ==> (#[trigger] chunks@[j])@.len()
                == chunk_size,
        decreases data@.len() - i,
    {
        let end = if data.len() - i < chunk_size {
            data.len()
        } else {
            i + chunk_size
        };
        let chunk = vstd::slice::slice_to_vec(
            vstd::slice::slice_subrange(data.as_slice(), i, end),
        );
        proof {
            let ghost prev = chunks@;
            assert(chunk@ =~= data@.subrange(i as int, end as int));
            assert(chunk_views(prev.push(chunk)).drop_last() =~= chunk_views(prev));
            assert(chunk_views(prev.push(chunk)).last() == chunk@);
            assert(concat_chunks(chunk_views(prev.push(chunk))) == concat_chunks(
                chunk_views(prev),
            ) + chunk@);
            assert(data@.take(i as int) + data@.subrange(i as int, end as int) =~= data@.take(
                end as int,
            ));
        }
        chunks.push(chunk);
        i = end;
    }
    proof {
        assert(data@.take(i as int) =~= data@);
    }
    chunks
}

/// The final path segment of `s`: everything after the last `/`, or all of
/// `s` where it has none.
pub open spec fn last_segment(s: Seq<char>) -> Seq<char>
    decreases s.len(),
{
    if s.len() == 0 {
        s
    } else if s.last() == '/' {
        Seq::empty()
    } else {
        last_segment(s.drop_last()) + seq![s.last()]
    }
}

proof fn lemma_last_segment_suffix(s: Seq<char>, i: int)
    requires
        0 <= i <= s.len(),
        forall|j: int| i <= j < s.len() ==> s[j] != '/',
        i > 0 ==> s[i - 1] == '/',
    ensures
        last_segment(s) == s.skip(i),
    decreases s.len(),
{
    if s.len() == 0 {
        assert(s.skip(0) =~= s);
    } else if i == s.len() {
        assert(s.last() == s[i - 1]);
        assert(s.skip(i) =~= Seq::<char>::empty());
    } else {
        assert(s.last() != '/');
        lemma_last_segment_suffix(s.drop_last(), i);
        assert(s.skip(i) =~= s.drop_last().skip(i) + seq![s.last()]);
    }
}

/// The output path the receiver writes to: the explicitly requested file,
/// or else the last path segment of the offered file name, which keeps a
/// crafted name from escaping the working directory.
pub fn choose_output_path(out_file: &Option<String>, file_name: &str) -> (r: String)
    ensures
        out_file matches Some(o) ==> r@ == o@,
        out_file is None ==> r@ == last_segment(file_name@),
{
    match out_file {
        Option::Some(o) => o.clone(),
        Option::None => {
            let n = file_name.unicode_len();
            let mut start: usize = n;
            while start > 0 && file_name.get_char(start - 1) != '/'
                invariant
                    start <= n == file_name@.len(),
                    forall|j: int| start <= j < n ==> file_name@[j] != '/',
                decreases start,
            {
                start = start - 1;
            }
            proof {
                lemma_last_segment_suffix(file_name@, start as int);
                assert(file_name@.subrange(start as int, n as int) =~= file_name@.skip(
                    start as int,
                ));
            }
            file_name.substring_char(start, n).to_owned()
        },
    }
}

/// Whether the receiver may overwrite the output file: yes outright when
/// overwriting is forced or the file is absent; a question when prompts
/// are allowed; a refusal when they are not.
pub fn overwrite_decision(overwrite_file: bool, file_exists: bool, no_prompt: bool) -> (r: Result<
    bool,
>)
    ensures
        !overwrite_file && file_exists && no_prompt ==> (r matches Err(e) && e is NoPromptExit),
        !overwrite_file && file_exists && !no_prompt ==> r == Result::<bool>::Ok(true),
        overwrite_file || !file_exists ==> r == Result::<bool>::Ok(false),
{
    if !overwrite_file && file_exists {
        if no_prompt {
            Err(NudgeError::NoPromptExit)
        } else {
            Ok(true)
        }
    } else {
        Ok(false)
    }
}

/// Whether the receiver may start the download: yes outright under
/// `force`; a question when prompts are allowed; a refusal when not.
pub fn download_decision(force: bool, no_prompt: bool) -> (r: Result<bool>)
    ensures
        force ==> r == Result::<bool>::Ok(false),
        !force && no_prompt ==> (r matches Err(e) && e is NoPromptExit),
        !force && !no_prompt ==> r == Result::<bool>::Ok(true),
{
    if force {
        Ok(false)
    } else if no_prompt {
        Err(NudgeError::NoPromptExit)
    } else {
        Ok(true)
    }
}

/// The BLAKE3 digest of a byte string, as 64 lowercase hex characters.
pub uninterp spec fn blake3_hex_of(data: Seq<u8>) -> Seq<char>;

/// Relies on blake3::hash and Hash::to_hex: the BLAKE3 digest of the
/// bytes as 64 lowercase hex characters, a function of the bytes alone.
#[verifier::external_body]
fn blake3_hex(data: &[u8]) -> (r: String)
    ensures
        r@ == blake3_hex_of(data@),
        r@.len() == 64,
{
    blake3::hash(data).to_hex().as_str().to_owned()
}

/// The hash field a sender offers: absent under `skip_hash`, else the
/// content digest of the file bytes.
pub fn compute_file_hash(skip_hash: bool, data: &Vec<u8>) -> (r: AnonymousString)
    ensures
        skip_hash ==> r@ is None,
        !skip_hash ==> (r@ matches Some(h) && h == blake3_hex_of(data@)),
{
    if skip_hash {
        AnonymousString(Option::None)
    } else {
        AnonymousString(Option::Some(blake3_hex(data.as_slice())))
    }
}

/// The post-transfer verification: trivially content under `skip_hash` or
/// a hashless offer, and otherwise the received bytes pass exactly when
/// their digest is the offered hash; a mismatch reports both digests.
pub fn check_received_hash(expected: &AnonymousString, skip_hash: bool, data: &Vec<u8>) -> (r:
    Result<()>)
    ensures
        skip_hash ==> r is Ok,
        !skip_hash && expected@ is None ==> r is Ok,
        !skip_hash ==> (expected@ matches Some(h) ==> {
            &&& r is Ok <==> h == blake3_hex_of(data@)
            &&& r is Err ==> (r matches Err(NudgeError::HashMismatch(e, a)) && e@ == h && a@
                == blake3_hex_of(data@))
        }),
{
    if skip_hash {
        return Ok(());
    }
    match &expected.0 {
        Option::None => Ok(()),
        Option::Some(h) => {
            let actual = blake3_hex(data.as_slice());
            if *h == actual {
                Ok(())
            } else {
                Err(NudgeError::HashMismatch(h.clone(), actual))
            }
        },
    }
}

} // verus!

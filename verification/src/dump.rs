//! The host-facing dump protocol.
//!
//! A dump session is a fixed sequence of text lines: a begin marker and the
//! file count, then per readable file a path line, a size line, the content
//! in 64-byte chunks rendered as lowercase hex, and an end marker; finally
//! a session end marker and the total byte count. A file whose contents
//! could not be read is counted but skipped — the dump carries on with the
//! rest. The inter-chunk pacing delay is the transport's business, not
//! part of the line sequence.

use vstd::prelude::*;
use vstd::string::StringExecFns;

use crate::text::{bytes_to_hex, spec_dec, spec_hex, u64_to_dec};

verus! {

/// Raw bytes per hex-encoded chunk line.
pub const DUMP_CHUNK_SIZE: usize = 64;

/// One stored file handed to the dump: its path and its contents, or
/// nothing if reading it failed.
pub struct DumpFile {
    pub path: String,
    pub content: Option<Vec<u8>>,
}

impl DumpFile {
    /// The contents as a byte string, when the read succeeded.
    pub open spec fn spec_content(&self) -> Option<Seq<u8>> {
        match self.content {
            Option::Some(ref data) => Option::Some(data@),
            Option::None => Option::None,
        }
    }
}

/// The views of a sequence of rendered lines.
pub open spec fn spec_line_views(lines: Seq<String>) -> Seq<Seq<char>> {
    lines.map_values(|line: String| line@)
}

/// Appending a rendered line appends its view.
pub proof fn lemma_line_views_push(lines: Seq<String>, line: String)
    ensures
        spec_line_views(lines.push(line)) == spec_line_views(lines).push(line@),
{
    assert(spec_line_views(lines.push(line)) =~= spec_line_views(lines).push(line@));
}

/// The chunk lines of a file's contents: 64 bytes of lowercase hex per
/// line, the last line shorter if the length is no multiple of 64, no
/// lines at all for an empty file.
pub open spec fn spec_chunk_lines(content: Seq<u8>) -> Seq<Seq<char>>
    decreases content.len(),
{
    if content.len() == 0 {
        Seq::empty()
    } else if content.len() <= DUMP_CHUNK_SIZE {
        seq!["CHUNK:"@ + spec_hex(content)]
    } else {
        seq!["CHUNK:"@ + spec_hex(content.take(DUMP_CHUNK_SIZE as int))] + spec_chunk_lines(
            content.skip(DUMP_CHUNK_SIZE as int),
        )
    }
}

/// Chunking splits cleanly at any chunk boundary.
pub proof fn lemma_chunk_lines_split(content: Seq<u8>, boundary: int)
    requires
        0 <= boundary <= content.len(),
        boundary % DUMP_CHUNK_SIZE as int == 0,
    ensures
        spec_chunk_lines(content) == spec_chunk_lines(content.take(boundary)) + spec_chunk_lines(
            content.skip(boundary),
        ),
    decreases boundary,
{
    if boundary == 0 {
        assert(content.take(0) =~= Seq::<u8>::empty());
        assert(content.skip(0) =~= content);
        assert(Seq::<Seq<char>>::empty() + spec_chunk_lines(content) =~= spec_chunk_lines(content));
    } else {
        let step = DUMP_CHUNK_SIZE as int;
        assert(boundary >= step) by (nonlinear_arith)
            requires
                boundary % step == 0,
                boundary > 0,
                step > 0,
        ;
        assert((boundary - step) % step == 0) by (nonlinear_arith)
            requires
                boundary % step == 0,
                step > 0,
        ;
        let rest = content.skip(step);
        lemma_chunk_lines_split(rest, boundary - step);
        assert(rest.take(boundary - step) =~= content.take(boundary).skip(step));
        assert(rest.skip(boundary - step) =~= content.skip(boundary));
        if content.len() == step {
            assert(content.take(boundary) =~= content);
            assert(content.skip(boundary) =~= Seq::<u8>::empty());
            assert(spec_chunk_lines(content) + Seq::<Seq<char>>::empty() =~= spec_chunk_lines(
                content,
            ));
        } else {
            assert(content.len() > step);
            assert(content.take(boundary).take(step) =~= content.take(step));
            assert(content.take(boundary).len() == boundary);
            if boundary == step {
                assert(content.take(boundary).skip(step) =~= Seq::<u8>::empty());
                assert(spec_chunk_lines(content.take(step)) == seq![
                    "CHUNK:"@ + spec_hex(content.take(step)),
                ]);
            }
            assert(spec_chunk_lines(content) == seq!["CHUNK:"@ + spec_hex(content.take(step))]
                + spec_chunk_lines(rest));
            assert(spec_chunk_lines(content.take(boundary)) == (
            if boundary == step {
                seq!["CHUNK:"@ + spec_hex(content.take(step))]
            } else {
                seq!["CHUNK:"@ + spec_hex(content.take(boundary).take(step))] + spec_chunk_lines(
                    content.take(boundary).skip(step),
                )
            }));
            assert(seq!["CHUNK:"@ + spec_hex(content.take(step))] + (spec_chunk_lines(
                rest.take(boundary - step),
            ) + spec_chunk_lines(rest.skip(boundary - step))) =~= (seq![
                "CHUNK:"@ + spec_hex(content.take(step)),
            ] + spec_chunk_lines(rest.take(boundary - step))) + spec_chunk_lines(
                rest.skip(boundary - step),
            ));
            if boundary == step {
                assert(spec_chunk_lines(rest.take(0)) =~= Seq::<Seq<char>>::empty());
                assert(seq!["CHUNK:"@ + spec_hex(content.take(step))] + Seq::<Seq<char>>::empty()
                    =~= seq!["CHUNK:"@ + spec_hex(content.take(step))]);
            }
        }
    }
}

/// The lines of one readable file: path, size, hex chunks, end marker.
pub open spec fn spec_file_lines(path: Seq<char>, content: Seq<u8>) -> Seq<Seq<char>> {
    seq!["FILE_BEGIN:"@ + path, "FILE_SIZE:"@ + spec_dec(content.len())] + spec_chunk_lines(content)
        + seq!["FILE_END"@]
}

/// The lines of a run of files, unreadable ones skipped.
pub open spec fn spec_files_lines(files: Seq<DumpFile>) -> Seq<Seq<char>>
    decreases files.len(),
{
    if files.len() == 0 {
        Seq::empty()
    } else {
        (match files[0].spec_content() {
            Option::Some(content) => spec_file_lines(files[0].path@, content),
            Option::None => Seq::empty(),
        }) + spec_files_lines(files.drop_first())
    }
}

/// Total bytes of the readable files.
pub open spec fn spec_total_bytes(files: Seq<DumpFile>) -> nat
    decreases files.len(),
{
    if files.len() == 0 {
        0
    } else {
        (match files[0].spec_content() {
            Option::Some(content) => content.len(),
            Option::None => 0,
        }) + spec_total_bytes(files.drop_first())
    }
}

/// File lines grow at the end as files are appended.
pub proof fn lemma_files_lines_snoc(files: Seq<DumpFile>, file: DumpFile)
    ensures
        spec_files_lines(files.push(file)) == spec_files_lines(files) + (
        match file.spec_content() {
            Option::Some(content) => spec_file_lines(file.path@, content),
            Option::None => Seq::<Seq<char>>::empty(),
        }),
        spec_total_bytes(files.push(file)) == spec_total_bytes(files) + (
        match file.spec_content() {
            Option::Some(content) => content.len(),
            Option::None => 0,
        }),
    decreases files.len(),
{
    let tail = (match file.spec_content() {
        Option::Some(content) => spec_file_lines(file.path@, content),
        Option::None => Seq::<Seq<char>>::empty(),
    });
    if files.len() == 0 {
        assert(files.push(file).drop_first() =~= files);
        assert(tail + Seq::<Seq<char>>::empty() =~= tail);
        assert(Seq::<Seq<char>>::empty() + tail =~= tail);
    } else {
        assert(files.push(file).drop_first() =~= files.drop_first().push(file));
        lemma_files_lines_snoc(files.drop_first(), file);
        let head = (match files[0].spec_content() {
            Option::Some(content) => spec_file_lines(files[0].path@, content),
            Option::None => Seq::<Seq<char>>::empty(),
        });
        assert(head + (spec_files_lines(files.drop_first()) + tail) =~= (head + spec_files_lines(
            files.drop_first(),
        )) + tail);
    }
}

/// The whole session: begin marker and file count, the files' lines, end
/// marker and total byte count.
pub open spec fn spec_dump_lines(files: Seq<DumpFile>) -> Seq<Seq<char>> {
    seq!["MAC_SNIFF_DUMP_BEGIN"@, "NUM_FILES:"@ + spec_dec(files.len())] + spec_files_lines(files)
        + seq!["MAC_SNIFF_DUMP_END"@, "TOTAL_BYTES:"@ + spec_dec(spec_total_bytes(files))]
}

/// Append the chunk lines of `content` to `out`.
fn push_chunk_lines(out: &mut Vec<String>, content: &[u8])
    ensures
        spec_line_views(final(out)@) == spec_line_views(old(out)@) + spec_chunk_lines(content@),
{
    let ghost start = out@;
    let mut off: usize = 0;
    while off < content.len()
        invariant
            0 <= off <= content@.len(),
            off % DUMP_CHUNK_SIZE == 0 || off == content@.len(),
            spec_line_views(out@) == spec_line_views(start) + spec_chunk_lines(
                content@.take(off as int),
            ),
        decreases content@.len() - off,
    {
        let step = if content.len() - off < DUMP_CHUNK_SIZE {
            content.len() - off
        } else {
            DUMP_CHUNK_SIZE
        };
        let mut chunk: Vec<u8> = Vec::new();
        let mut j: usize = 0;
        while j < step
            invariant
                j <= step,
                off + step <= content@.len(),
                content@.len() <= usize::MAX,
                chunk@ =~= content@.subrange(off as int, off + j),
            decreases step - j,
        {
            chunk.push(content[off + j]);
            proof {
                assert(content@.subrange(off as int, off + j).push(content@[off + j]) =~= content@
                    .subrange(off as int, off + j + 1));
            }
            j += 1;
        }
        let mut line = String::from_str("CHUNK:");
        let hex = bytes_to_hex(chunk.as_slice());
        line.append(hex.as_str());
        proof {
            let boundary = off as int;
            let next = off + step;
            lemma_chunk_lines_split(content@.take(next as int), boundary);
            assert(content@.take(next as int).take(boundary) =~= content@.take(boundary));
            let piece = content@.take(next as int).skip(boundary);
            assert(piece =~= content@.subrange(off as int, next as int));
            assert(piece.len() == step);
            assert(spec_chunk_lines(piece) == seq!["CHUNK:"@ + spec_hex(piece)]);
            assert(line@ == "CHUNK:"@ + spec_hex(piece));
            lemma_line_views_push(out@, line);
            assert(spec_line_views(start) + spec_chunk_lines(content@.take(boundary)) + seq![line@]
                =~= spec_line_views(start) + (spec_chunk_lines(content@.take(boundary)) + seq![
                line@,
            ]));
            assert(spec_chunk_lines(content@.take(boundary)) + seq![line@] =~= spec_chunk_lines(
                content@.take(next as int),
            ));
            assert((off + step) % (DUMP_CHUNK_SIZE as int) == 0 || off + step == content@.len()) by {
                if step == DUMP_CHUNK_SIZE {
                    assert((off + DUMP_CHUNK_SIZE) % (DUMP_CHUNK_SIZE as int) == 0)
                        by (nonlinear_arith)
                        requires
                            off % DUMP_CHUNK_SIZE == 0,
                    ;
                }
            }
        }
        out.push(line);
        off += step;
    }
    proof {
        assert(content@.take(content@.len() as int) =~= content@);
    }
}

/// Append the lines of one readable file to `out`.
fn push_file_lines(out: &mut Vec<String>, path: &str, content: &[u8])
    ensures
        spec_line_views(final(out)@) == spec_line_views(old(out)@) + spec_file_lines(
            path@,
            content@,
        ),
{
    let mut begin = String::from_str("FILE_BEGIN:");
    begin.append(path);
    proof {
        lemma_line_views_push(out@, begin);
    }
    out.push(begin);
    let mut size = String::from_str("FILE_SIZE:");
    let digits = u64_to_dec(content.len() as u64);
    size.append(digits.as_str());
    proof {
        lemma_line_views_push(out@, size);
    }
    out.push(size);
    push_chunk_lines(out, content);
    let end = String::from_str("FILE_END");
    proof {
        lemma_line_views_push(out@, end);
    }
    out.push(end);
    proof {
        assert(spec_line_views(old(out)@).push("FILE_BEGIN:"@ + path@).push(
            "FILE_SIZE:"@ + spec_dec(content@.len()),
        ) + spec_chunk_lines(content@) + seq!["FILE_END"@] =~= spec_line_views(old(out)@)
            + spec_file_lines(path@, content@));
        assert(spec_line_views(out@) =~= spec_line_views(old(out)@).push(
            "FILE_BEGIN:"@ + path@,
        ).push("FILE_SIZE:"@ + spec_dec(content@.len())) + spec_chunk_lines(content@) + seq![
            "FILE_END"@,
        ]);
    }
}

/// Render the whole dump session for `files`, in listing order: the exact
/// lines the host decoder expects, unreadable files counted but skipped.
pub fn dump_lines(files: &Vec<DumpFile>) -> (lines: Vec<String>)
    requires
        spec_total_bytes(files@) <= u64::MAX,
    ensures
        spec_line_views(lines@) == spec_dump_lines(files@),
{
    let mut lines: Vec<String> = Vec::new();
    let begin = String::from_str("MAC_SNIFF_DUMP_BEGIN");
    proof {
        lemma_line_views_push(lines@, begin);
    }
    lines.push(begin);
    let mut count_line = String::from_str("NUM_FILES:");
    let count_digits = u64_to_dec(files.len() as u64);
    count_line.append(count_digits.as_str());
    proof {
        lemma_line_views_push(lines@, count_line);
    }
    lines.push(count_line);
    let ghost header = lines@;
    let mut total_bytes: u64 = 0;
    let mut i: usize = 0;
    while i < files.len()
        invariant
            i <= files@.len(),
            spec_total_bytes(files@) <= u64::MAX,
            spec_line_views(lines@) == spec_line_views(header) + spec_files_lines(
                files@.take(i as int),
            ),
            total_bytes == spec_total_bytes(files@.take(i as int)),
        decreases files@.len() - i,
    {
        proof {
            assert(files@.take(i as int).push(files@[i as int]) =~= files@.take(i + 1));
            lemma_files_lines_snoc(files@.take(i as int), files@[i as int]);
            lemma_total_bytes_prefix(files@, i + 1);
        }
        match files[i].content {
            Option::Some(ref content) => {
                push_file_lines(&mut lines, files[i].path.as_str(), content.as_slice());
                proof {
                    assert(spec_line_views(header) + spec_files_lines(files@.take(i as int))
                        + spec_file_lines(
                        files@[i as int].path@,
                        files@[i as int].spec_content().unwrap(),
                    ) =~= spec_line_views(header) + spec_files_lines(files@.take(i + 1)));
                }
                total_bytes += content.len() as u64;
            },
            Option::None => {
                proof {
                    assert(spec_files_lines(files@.take(i as int)) + Seq::<Seq<char>>::empty()
                        =~= spec_files_lines(files@.take(i as int)));
                }
            },
        }
        i += 1;
    }
    proof {
        assert(files@.take(files@.len() as int) =~= files@);
    }
    let end = String::from_str("MAC_SNIFF_DUMP_END");
    proof {
        lemma_line_views_push(lines@, end);
    }
    lines.push(end);
    let mut total_line = String::from_str("TOTAL_BYTES:");
    let total_digits = u64_to_dec(total_bytes);
    total_line.append(total_digits.as_str());
    proof {
        lemma_line_views_push(lines@, total_line);
    }
    lines.push(total_line);
    proof {
        assert(spec_line_views(header) + spec_files_lines(files@) + seq![
            "MAC_SNIFF_DUMP_END"@,
            "TOTAL_BYTES:"@ + spec_dec(spec_total_bytes(files@)),
        ] =~= spec_dump_lines(files@));
        assert(spec_line_views(lines@) =~= spec_line_views(header) + spec_files_lines(files@)
            + seq!["MAC_SNIFF_DUMP_END"@, "TOTAL_BYTES:"@ + spec_dec(spec_total_bytes(files@))]);
    }
    lines
}

/// The bytes of a prefix never exceed the whole run's total.
pub proof fn lemma_total_bytes_prefix(files: Seq<DumpFile>, n: int)
    requires
        0 <= n <= files.len(),
    ensures
        spec_total_bytes(files.take(n)) <= spec_total_bytes(files),
    decreases files.len(),
{
    if files.len() > 0 && n > 0 {
        assert(files.take(n).drop_first() =~= files.drop_first().take(n - 1));
        lemma_total_bytes_prefix(files.drop_first(), n - 1);
    } else if n == 0 {
        assert(files.take(0) =~= Seq::<DumpFile>::empty());
    }
}

} // verus!

//! The pure halves of the streaming file I/O: seek arithmetic, the
//! buffered byte-taking of the read stream, and the write stream's
//! decisions (where to upload, what to do on flush, and which siblings
//! the replace-by-name rule deletes).

use vstd::prelude::*;
use vstd::math::min;
use crate::model::{children_model, Contents, ContentsModel};
use crate::strutil::{rfind_char, str_eq, substr_copy};

verus! {

// ---------------------------------------------------------------------------
// Seek
// ---------------------------------------------------------------------------

/// A seek target, as the WebDAV layer hands it over.
pub enum SeekFrom {
    Start(u64),
    End(i64),
    Current(i64),
}

/// The byte position a seek asks for, in unbounded arithmetic.
pub open spec fn seek_target(pos: SeekFrom, current: u64, size: u64) -> int {
    match pos {
        SeekFrom::Start(o) => o as int,
        SeekFrom::End(o) => size + o,
        SeekFrom::Current(o) => current + o,
    }
}

/// Computes the new position of a seek: `None` when the target is
/// negative or past the end of the file.
pub fn seek_position(pos: SeekFrom, current: u64, size: u64) -> (r: Option<u64>)
    ensures
        r == if 0 <= seek_target(pos, current, size) <= size {
            Some(seek_target(pos, current, size) as u64)
        } else {
            None::<u64>
        },
{
    let target: i128 = match pos {
        SeekFrom::Start(o) => o as i128,
        SeekFrom::End(o) => size as i128 + o as i128,
        SeekFrom::Current(o) => current as i128 + o as i128,
    };
    if target < 0 || target > size as i128 {
        None
    } else {
        Some(target as u64)
    }
}

// ---------------------------------------------------------------------------
// Buffered byte taking
// ---------------------------------------------------------------------------

/// One `read` in progress over the range stream: the bytes gathered so
/// far, the buffered remainder of the last chunk, and the count asked
/// for.
pub struct ByteTaker {
    pub acc: Vec<u8>,
    pub buffer: Vec<u8>,
    pub n: usize,
}

impl ByteTaker {
    /// Never gather more than was asked for.
    pub open spec fn wf(&self) -> bool {
        self.acc@.len() <= self.n
    }

    /// Begins taking `n` bytes, with whatever the stream's buffer held.
    pub fn begin(buffer: Vec<u8>, n: usize) -> (r: ByteTaker)
        ensures
            r.wf(),
            r.acc@ == Seq::<u8>::empty(),
            r.buffer@ == buffer@,
            r.n == n,
    {
        ByteTaker { acc: Vec::new(), buffer, n }
    }

    /// Moves bytes from the buffer into the gathered result, in order,
    /// until the result is full or the buffer is empty. Returns whether
    /// the result is full. No byte is lost or reordered: the gathered
    /// result followed by the remaining buffer is what was there before.
    pub fn drain(&mut self) -> (done: bool)
        requires
            old(self).wf(),
        ensures
            final(self).wf(),
            final(self).n == old(self).n,
            ({
                let total = old(self).acc@ + old(self).buffer@;
                let m = min(old(self).n as int, total.len() as int);
                &&& final(self).acc@ == total.take(m)
                &&& final(self).buffer@ == total.skip(m)
                &&& done == (final(self).acc@.len() == final(self).n)
            }),
    {
        let need = self.n - self.acc.len();
        if self.buffer.len() <= need {
            let ghost acc0 = self.acc@;
            let ghost buf0 = self.buffer@;
            let mut buffer = Vec::new();
            core::mem::swap(&mut buffer, &mut self.buffer);
            self.acc.append(&mut buffer);
            proof {
                assert(self.acc@ == acc0 + buf0);
                assert((acc0 + buf0).take((acc0 + buf0).len() as int) =~= acc0 + buf0);
                assert((acc0 + buf0).skip((acc0 + buf0).len() as int) =~= Seq::<u8>::empty());
                assert(self.buffer@ =~= Seq::<u8>::empty());
            }
        } else {
            let ghost acc0 = self.acc@;
            let ghost buf0 = self.buffer@;
            let rest = self.buffer.split_off(need);
            self.acc.append(&mut self.buffer);
            self.buffer = rest;
            proof {
                assert(self.acc@ == acc0 + buf0.subrange(0, need as int));
                assert(self.acc@ =~= (acc0 + buf0).take((acc0 + buf0).len() as int - (
                buf0.len() - need as int)));
                assert(self.acc@ =~= (acc0 + buf0).take(self.n as int));
                assert(self.buffer@ =~= (acc0 + buf0).skip(self.n as int));
            }
        }
        self.acc.len() == self.n
    }

    /// Refills the empty buffer with the next chunk of the stream.
    pub fn feed(&mut self, chunk: Vec<u8>)
        requires
            old(self).wf(),
            old(self).buffer@.len() == 0,
        ensures
            final(self).wf(),
            final(self).acc@ == old(self).acc@,
            final(self).buffer@ == chunk@,
            final(self).n == old(self).n,
    {
        self.buffer = chunk;
    }

    /// Ends the read (the stream is exhausted or the result full): the
    /// gathered bytes, and the buffer to keep for the next read.
    pub fn finish(self) -> (r: (Vec<u8>, Vec<u8>))
        ensures
            r.0@ == self.acc@,
            r.1@ == self.buffer@,
    {
        (self.acc, self.buffer)
    }
}

/// Range read equals slice: when the stream serves the file from byte
/// `a` on, gathering `b - a` bytes in order yields exactly the bytes
/// `a..b` of the file.
pub proof fn lemma_range_read_equals_slice(file: Seq<u8>, a: int, b: int)
    requires
        0 <= a <= b <= file.len(),
    ensures
        file.subrange(a, file.len() as int).take(b - a) == file.subrange(a, b),
{
    assert(file.subrange(a, file.len() as int).take(b - a) =~= file.subrange(a, b));
}

// ---------------------------------------------------------------------------
// Path components
// ---------------------------------------------------------------------------

/// The final component of a normalized path, after its last slash;
/// `None` when there is no slash or nothing follows it.
pub fn path_file_name(p: &str) -> (r: Option<String>)
    ensures
        match r {
            Some(name) => exists|i: int|
                0 <= i < p@.len() && p@[i] == '/' && (forall|j: int|
                    i < j < p@.len() ==> p@[j] != '/') && name@ == p@.subrange(
                    i + 1,
                    p@.len() as int,
                ) && name@.len() > 0,
            None => (forall|j: int| 0 <= j < p@.len() ==> p@[j] != '/') || (p@.len() > 0 && p@[
                p@.len() - 1
            ] == '/'),
        },
{
    let n = p.unicode_len();
    match rfind_char(p, '/') {
        None => None,
        Some(i) => {
            if i + 1 == n {
                return None;
            }
            Some(substr_copy(p, i + 1, n))
        },
    }
}

/// Everything before the last slash of a normalized path; the empty
/// string when there is no slash.
pub fn path_parent(p: &str) -> (r: String)
    ensures
        (exists|i: int|
            0 <= i < p@.len() && p@[i] == '/' && (forall|j: int|
                i < j < p@.len() ==> p@[j] != '/') && r@ == p@.subrange(0, i)) || ((forall|j: int|
            0 <= j < p@.len() ==> p@[j] != '/') && r@ == Seq::<char>::empty()),
{
    match rfind_char(p, '/') {
        None => String::new(),
        Some(i) => substr_copy(p, 0, i),
    }
}

// ---------------------------------------------------------------------------
// Replace-by-name
// ---------------------------------------------------------------------------

/// The ids the replace-by-name rule deletes after an upload: every file
/// child named `name` except the one just uploaded.
pub open spec fn to_delete_spec(
    cs: Seq<(Seq<char>, ContentsModel)>,
    name: Seq<char>,
    keep: Seq<char>,
) -> Seq<Seq<char>>
    decreases cs.len(),
{
    if cs.len() == 0 {
        Seq::empty()
    } else {
        let rest = to_delete_spec(cs.drop_first(), name, keep);
        match cs[0].1 {
            ContentsModel::File(f) => if f.name == name && f.id != keep {
                seq![f.id] + rest
            } else {
                rest
            },
            ContentsModel::Folder(_) => rest,
        }
    }
}

/// Collects the ids of the file siblings to delete after an upload:
/// those named `filename`, except the freshly uploaded id.
pub fn ids_to_delete(
    children: &Vec<(String, Contents)>,
    filename: &str,
    uploaded_id: &str,
) -> (r: Vec<String>)
    ensures
        crate::model::str_seq_model(r@) == to_delete_spec(
            children_model(children@),
            filename@,
            uploaded_id@,
        ),
{
    proof {
        crate::model::lemma_children_model(children@);
        assert(children_model(children@).skip(0) =~= children_model(children@));
    }
    ids_to_delete_from(children, filename, uploaded_id, 0)
}

fn ids_to_delete_from(
    children: &Vec<(String, Contents)>,
    filename: &str,
    uploaded_id: &str,
    from: usize,
) -> (r: Vec<String>)
    requires
        from <= children@.len(),
    ensures
        crate::model::str_seq_model(r@) == to_delete_spec(
            children_model(children@).skip(from as int),
            filename@,
            uploaded_id@,
        ),
    decreases children@.len() - from,
{
    proof {
        crate::model::lemma_children_model(children@);
    }
    let ghost ss = children_model(children@).skip(from as int);
    if from == children.len() {
        let r: Vec<String> = Vec::new();
        proof {
            assert(ss =~= Seq::<(Seq<char>, ContentsModel)>::empty());
            assert(crate::model::str_seq_model(r@) =~= to_delete_spec(
                ss,
                filename@,
                uploaded_id@,
            ));
        }
        return r;
    }
    proof {
        assert(ss[0] == children_model(children@)[from as int]);
        assert(ss.drop_first() =~= children_model(children@).skip(from + 1));
    }
    let rest = ids_to_delete_from(children, filename, uploaded_id, from + 1);
    let keep_entry: Option<String> = match &children[from].1 {
        Contents::File(f) => {
            if str_eq(f.name.as_str(), filename) && !str_eq(f.id.as_str(), uploaded_id) {
                Some(f.id.clone())
            } else {
                None
            }
        },
        Contents::Folder(_) => None,
    };
    match keep_entry {
        None => rest,
        Some(id) => {
            let ghost rest0 = rest@;
            let mut out = rest;
            out.insert(0, id);
            proof {
                assert(out@.drop_first() =~= rest0);
                assert(crate::model::str_seq_model(out@) =~= seq![out@[0]@]
                    + crate::model::str_seq_model(rest0));
            }
            out
        },
    }
}

/// Replace-by-name: among the file children named `name`, any whose id
/// the deletion list spares is the uploaded one — so after the deletion
/// the folder holds at most the uploaded file under that name.
pub proof fn lemma_replace_by_name(
    cs: Seq<(Seq<char>, ContentsModel)>,
    name: Seq<char>,
    keep: Seq<char>,
)
    ensures
        forall|i: int|
            0 <= i < cs.len() ==> match (#[trigger] cs[i]).1 {
                ContentsModel::File(f) => (f.name == name && !to_delete_spec(
                    cs,
                    name,
                    keep,
                ).contains(f.id)) ==> f.id == keep,
                ContentsModel::Folder(_) => true,
            },
    decreases cs.len(),
{
    if cs.len() > 0 {
        lemma_replace_by_name(cs.drop_first(), name, keep);
        assert forall|i: int| 0 <= i < cs.len() implies (match (#[trigger] cs[i]).1 {
            ContentsModel::File(f) => (f.name == name && !to_delete_spec(
                cs,
                name,
                keep,
            ).contains(f.id)) ==> f.id == keep,
            ContentsModel::Folder(_) => true,
        }) by {
            let rest = to_delete_spec(cs.drop_first(), name, keep);
            if i == 0 {
                match cs[0].1 {
                    ContentsModel::File(f) => {
                        if f.name == name && f.id != keep {
                            assert(to_delete_spec(cs, name, keep)[0] == f.id);
                            assert(to_delete_spec(cs, name, keep).contains(f.id));
                        }
                    },
                    _ => {},
                }
            } else {
                assert(cs.drop_first()[i - 1] == cs[i]);
                match cs[i].1 {
                    ContentsModel::File(f) => {
                        if f.name == name && !rest.contains(f.id) {
                        }
                        if rest.contains(f.id) {
                            let w = choose|w: int| 0 <= w < rest.len() && rest[w] == f.id;
                            assert(to_delete_spec(cs, name, keep).len() >= rest.len());
                            match cs[0].1 {
                                ContentsModel::File(f0) => {
                                    if f0.name == name && f0.id != keep {
                                        assert(to_delete_spec(cs, name, keep)[w + 1] == f.id);
                                    } else {
                                        assert(to_delete_spec(cs, name, keep)[w] == f.id);
                                    }
                                },
                                _ => {
                                    assert(to_delete_spec(cs, name, keep)[w] == f.id);
                                },
                            }
                            assert(to_delete_spec(cs, name, keep).contains(f.id));
                        }
                    },
                    _ => {},
                }
            }
        }
    }
}

// ---------------------------------------------------------------------------
// The write stream's decisions
// ---------------------------------------------------------------------------

/// Where the first written chunk sends the upload: the parent folder to
/// resolve and the file name to upload under.
pub struct WriteBegin {
    pub parent_path: String,
    pub filename: String,
}

/// Plans the upload on the first written chunk: the file name is the
/// path's final component, the parent is everything before it; a path
/// without a final component cannot be written.
pub fn write_begin_plan(path: &str) -> (r: Option<WriteBegin>)
    ensures
        match r {
            Some(w) => exists|i: int|
                0 <= i < path@.len() && path@[i] == '/' && (forall|j: int|
                    i < j < path@.len() ==> path@[j] != '/') && w.filename@ == path@.subrange(
                    i + 1,
                    path@.len() as int,
                ) && w.filename@.len() > 0 && w.parent_path@ == path@.subrange(0, i),
            None => (forall|j: int| 0 <= j < path@.len() ==> path@[j] != '/') || (path@.len() > 0
                && path@[path@.len() - 1] == '/'),
        },
{
    let filename = match path_file_name(path) {
        Some(name) => name,
        None => {
            return None;
        },
    };
    let parent_path = path_parent(path);
    Some(WriteBegin { parent_path, filename })
}

/// What `flush` does about the upload task.
pub enum FlushPlan {
    /// Chunks were written: close the channel and await the upload.
    AwaitUpload,
    /// Nothing was ever written: synthesize a zero-byte upload, so that
    /// an open-then-flush produces an empty file.
    UploadEmpty,
}

/// Plans the flush: the upload task exists exactly when a chunk was
/// written before.
pub fn flush_plan(started: bool) -> (r: FlushPlan)
    ensures
        r == if started {
            FlushPlan::AwaitUpload
        } else {
            FlushPlan::UploadEmpty
        },
{
    if started {
        FlushPlan::AwaitUpload
    } else {
        FlushPlan::UploadEmpty
    }
}

} // verus!

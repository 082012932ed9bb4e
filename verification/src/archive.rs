//! The archive stream writer: a tar container layered over a gzip compressor
//! over an in-memory byte sink. Entries are appended in a single forward
//! pass; finalizing closes the container, then the compressor, and hands the
//! finished bytes back. Appending after finalizing is impossible by
//! construction, since finalizing consumes the writer.

use vstd::prelude::*;

verus! {

/// The tar-over-gzip writing stack. Opaque to verification; what has been
/// appended to it is named by `archive_log`.
#[verifier::external_body]
pub struct TarStack {
    inner: tar::Builder<flate2::write::GzEncoder<Vec<u8>>>,
}

/// The names of the entries appended to the writing stack so far, in order.
/// Only the names are recorded: each header's kind mirrors what the disk says
/// of the source at call time, which no contract can fix.
pub uninterp spec fn archive_log(b: TarStack) -> Seq<Seq<char>>;

/// Relies on tar::Builder::new and flate2::write::GzEncoder::new: a fresh tar
/// container over a streaming gzip compressor (default level) over the given
/// sink, holding no entries yet.
#[verifier::external_body]
fn tar_stack_new() -> (r: TarStack)
    ensures
        archive_log(r) == Seq::<Seq<char>>::empty(),
{
    TarStack {
        inner: tar::Builder::new(
            flate2::write::GzEncoder::new(Vec::new(), flate2::Compression::default()),
        ),
    }
}

/// Relies on tar::Builder::append_dir: on success the archive gains one
/// header-only entry under the given name, with metadata read from the source
/// path — directory-typed while the source remains the directory the engine
/// observed, though the kind is the disk's answer and is not claimed here.
#[verifier::external_body]
fn tar_append_dir(b: &mut TarStack, name: &String, src: &String) -> (r: Result<(), String>)
    ensures
        r is Ok ==> archive_log(*final(b)) == archive_log(*old(b)).push(name@),
{
    match b.inner.append_dir(
        std::path::Path::new(name.as_str()),
        std::path::Path::new(src.as_str()),
    ) {
        Ok(()) => Ok(()),
        Err(e) => Err(e.to_string()),
    }
}

/// Relies on tar::Builder::append_path_with_name: on success the archive
/// gains one entry under the given name — carrying the source file's current
/// on-disk bytes while the source remains the regular file the engine
/// observed, though the kind is the disk's answer and is not claimed here.
#[verifier::external_body]
fn tar_append_file(b: &mut TarStack, name: &String, src: &String) -> (r: Result<(), String>)
    ensures
        r is Ok ==> archive_log(*final(b)) == archive_log(*old(b)).push(name@),
{
    match b.inner.append_path_with_name(
        std::path::Path::new(src.as_str()),
        std::path::Path::new(name.as_str()),
    ) {
        Ok(()) => Ok(()),
        Err(e) => Err(e.to_string()),
    }
}

/// Relies on tar::Builder::into_inner and flate2::write::GzEncoder::finish:
/// writes the container's terminating blocks, then flushes and closes the
/// gzip stream, and returns the finished bytes. Errors can come only from
/// the sink — a `Vec<u8>`, whose writes cannot fail — or from a corrupted
/// compression stream, which driving the encoder solely through its write
/// interface never produces; the gzip framing and the tar terminator make
/// the result non-empty.
#[verifier::external_body]
fn tar_stack_finish(b: TarStack) -> (r: Result<Vec<u8>, String>)
    ensures
        r is Ok,
        r matches Ok(bytes) ==> bytes@.len() > 0,
{
    match b.inner.into_inner() {
        Ok(enc) => match enc.finish() {
            Ok(bytes) => Ok(bytes),
            Err(e) => Err(e.to_string()),
        },
        Err(e) => Err(e.to_string()),
    }
}

/// A compressed archive being written: opened once, appended to in order,
/// finalized exactly once. The model `entries()` lists the names of what has
/// been appended, in order.
pub struct ArchiveWriter {
    inner: TarStack,
    log: Ghost<Seq<Seq<char>>>,
}

impl ArchiveWriter {
    /// The names of the entries appended so far, in order.
    pub closed spec fn entries(&self) -> Seq<Seq<char>> {
        self.log@
    }

    /// The model matches what the tar layer has been given.
    pub closed spec fn wf(&self) -> bool {
        self.log@ == archive_log(self.inner)
    }

    /// Opens a fresh, empty archive over an in-memory sink.
    pub fn new() -> (w: ArchiveWriter)
        ensures
            w.wf(),
            w.entries() == Seq::<Seq<char>>::empty(),
    {
        let inner = tar_stack_new();
        ArchiveWriter { inner, log: Ghost(Seq::empty()) }
    }

    /// Appends one header-only directory entry under `name`, reading
    /// metadata from `src`. On failure the archive is no longer usable.
    pub fn append_dir(&mut self, name: &String, src: &String) -> (r: Result<(), String>)
        requires
            old(self).wf(),
        ensures
            r is Ok ==> final(self).wf() && final(self).entries() == old(self).entries().push(
                name@,
            ),
    {
        let r = tar_append_dir(&mut self.inner, name, src);
        match r {
            Ok(()) => {
                proof {
                    self.log@ = self.log@.push(name@);
                }
                Ok(())
            },
            Err(e) => Err(e),
        }
    }

    /// Appends one file entry under `name`, streaming the bytes of the file
    /// at `src`. On failure the archive is no longer usable.
    pub fn append_file(&mut self, name: &String, src: &String) -> (r: Result<(), String>)
        requires
            old(self).wf(),
        ensures
            r is Ok ==> final(self).wf() && final(self).entries() == old(self).entries().push(
                name@,
            ),
    {
        let r = tar_append_file(&mut self.inner, name, src);
        match r {
            Ok(()) => {
                proof {
                    self.log@ = self.log@.push(name@);
                }
                Ok(())
            },
            Err(e) => Err(e),
        }
    }

    /// Closes the container layer, then the compressor, and returns the
    /// finished archive bytes: always some, never empty, since the layers
    /// close over an in-memory sink that cannot fail. Consumes the writer,
    /// so nothing can be appended afterwards.
    pub fn finalize(self) -> (r: Result<Vec<u8>, String>)
        ensures
            r is Ok,
            r matches Ok(bytes) ==> bytes@.len() > 0,
    {
        tar_stack_finish(self.inner)
    }
}

} // verus!

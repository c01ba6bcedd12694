use vstd::prelude::*;

use crate::decode::decode_image;
use crate::decode::image_decodable;
use crate::order::entries_sorted;
use crate::order::sort_entries;
use crate::paths::file_name_of;
use crate::paths::file_title;
use crate::paths::path_supported;
use crate::paths::supported_path;
use crate::providers::ArchiveSource;
use crate::providers::ProviderError;
use std::collections::HashMap;

verus! {

broadcast use vstd::std_specs::hash::group_hash_axioms;

/// An ordered set of comic archive paths under one display name. The order
/// of the paths is fixed for the collection's lifetime.
pub struct FileSystemCollectionProvider {
    pub collection_name: String,
    pub paths: Vec<String>,
}

/// One decoded page: the archive member name it came from and the decoded
/// raster image. The ghost `source` records the raw bytes the image was
/// decoded from.
pub struct FileSystemPageProvider {
    pub file_name: String,
    pub image_buffer: image::DynamicImage,
    pub source: Ghost<Seq<u8>>,
}

/// Page-addressable access to one archive: a title taken from the file name,
/// the open container, the member list sorted once in reading order, and the
/// per-page raw-byte cache that grows for the comic's lifetime.
pub struct FileSystemComicProvider<A: ArchiveSource> {
    pub title: String,
    pub path: String,
    pub archive: A,
    pub file_list: Vec<String>,
    pub cache: HashMap<usize, Vec<u8>>,
    /// How many times the container has been asked to extract an entry: a
    /// request for a cached page never raises it.
    pub extractions: Ghost<nat>,
}

impl FileSystemCollectionProvider {
    pub fn new(collection_name: String, paths: Vec<String>) -> (r: Result<
        Self,
        ProviderError,
    >)
        ensures
            r is Ok,
            r.unwrap().collection_name == collection_name,
            r.unwrap().paths == paths,
    {
        Ok(Self { collection_name, paths })
    }

    pub fn get_name(&self) -> (r: String)
        ensures
            r == self.collection_name,
    {
        self.collection_name.clone()
    }

    pub fn get_size(&self) -> (r: usize)
        ensures
            r == self.paths@.len(),
    {
        self.paths.len()
    }

    /// The archive path of the comic at `index`; the surrounding application
    /// opens that file and hands the container back through `get_comic`.
    pub fn get_path(&self, index: usize) -> (r: Result<String, ProviderError>)
        ensures
            index < self.paths@.len() <==> r is Ok,
            r is Ok ==> r.unwrap() == self.paths@[index as int],
            index >= self.paths@.len() <==> r == Err::<String, ProviderError>(
                ProviderError::IndexOutOfRange,
            ),
    {
        if index < self.paths.len() {
            Ok(self.paths[index].clone())
        } else {
            Err(ProviderError::IndexOutOfRange)
        }
    }

    /// Builds the comic at `index` from its freshly opened container. The
    /// archive is opened and listed anew on every call; only page-level raw
    /// bytes are ever cached, and only inside the returned comic.
    pub fn get_comic<A: ArchiveSource>(&self, index: usize, archive: A) -> (r: Result<
        FileSystemComicProvider<A>,
        ProviderError,
    >)
        ensures
            index >= self.paths@.len() <==> r == Err::<FileSystemComicProvider<A>, ProviderError>(
                ProviderError::IndexOutOfRange,
            ),
            index < self.paths@.len() ==> (!supported_path(self.paths@[index as int]@) <==> r
                == Err::<FileSystemComicProvider<A>, ProviderError>(
                ProviderError::UnsupportedFormat,
            )),
            r is Err ==> r == Err::<FileSystemComicProvider<A>, ProviderError>(
                ProviderError::IndexOutOfRange,
            ) || r == Err::<FileSystemComicProvider<A>, ProviderError>(
                ProviderError::UnsupportedFormat,
            ) || r == Err::<FileSystemComicProvider<A>, ProviderError>(
                ProviderError::ArchiveReadError,
            ),
            r is Ok ==> {
                &&& index < self.paths@.len()
                &&& r.unwrap().wf()
                &&& r.unwrap().path == self.paths@[index as int]
                &&& r.unwrap().title@ == file_name_of(self.paths@[index as int]@)
                &&& r.unwrap().cache@ == Map::<usize, Vec<u8>>::empty()
                &&& r.unwrap().extractions@ == 0
            },
    {
        if index < self.paths.len() {
            FileSystemComicProvider::new(self.paths[index].clone(), archive)
        } else {
            Err(ProviderError::IndexOutOfRange)
        }
    }
}

impl<A: ArchiveSource> FileSystemComicProvider<A> {
    /// The comic's invariant: the entry list was sorted into reading order
    /// when the comic was opened, and the raw-byte cache only holds pages
    /// that exist.
    pub open spec fn wf(self) -> bool {
        &&& entries_sorted(self.file_list@)
        &&& forall|k: usize| #[trigger] self.cache@.contains_key(k) ==> k
            < self.file_list@.len()
    }

    /// Opens a comic: validates the path's extension before anything else is
    /// touched, then lists the container's entries and sorts them once. The
    /// entry order never changes afterwards.
    pub fn new(path: String, archive: A) -> (r: Result<Self, ProviderError>)
        ensures
            !supported_path(path@) <==> r == Err::<Self, ProviderError>(
                ProviderError::UnsupportedFormat,
            ),
            r is Err ==> r == Err::<Self, ProviderError>(ProviderError::UnsupportedFormat) || r
                == Err::<Self, ProviderError>(ProviderError::ArchiveReadError),
            r is Ok ==> {
                &&& supported_path(path@)
                &&& r.unwrap().wf()
                &&& r.unwrap().path == path
                &&& r.unwrap().title@ == file_name_of(path@)
                &&& r.unwrap().cache@ == Map::<usize, Vec<u8>>::empty()
                &&& r.unwrap().extractions@ == 0
            },
    {
        if !path_supported(path.as_str()) {
            return Err(ProviderError::UnsupportedFormat);
        }
        let title = file_title(path.as_str());
        let mut archive = archive;
        let mut file_list = match archive.list_entries() {
            Ok(entries) => entries,
            Err(_) => {
                return Err(ProviderError::ArchiveReadError);
            },
        };
        sort_entries(&mut file_list);
        Ok(
            Self {
                title,
                path,
                archive,
                file_list,
                cache: HashMap::new(),
                extractions: Ghost(0),
            },
        )
    }

    /// The container is already open once the comic is built; this hook
    /// stays for callers that expect an explicit open step.
    pub fn open(&self) -> (r: Result<(), ProviderError>)
        ensures
            r is Ok,
    {
        Ok(())
    }

    pub fn get_title(&self) -> (r: String)
        ensures
            r == self.title,
    {
        self.title.clone()
    }

    pub fn get_length(&self) -> (r: usize)
        ensures
            r == self.file_list@.len(),
    {
        self.file_list.len()
    }

    /// Resolves `index` to its entry name in the sorted list, finds the raw
    /// bytes — from the cache when the page was extracted before, else by
    /// extracting them once from the container and caching them — and decodes
    /// them into a fresh page. The entry list never changes, so the same
    /// index always names the same entry.
    pub fn get_page(&mut self, index: usize) -> (r: Result<
        FileSystemPageProvider,
        ProviderError,
    >)
        requires
            old(self).wf(),
        ensures
            final(self).wf(),
            final(self).title == old(self).title,
            final(self).path == old(self).path,
            final(self).file_list == old(self).file_list,
            index >= old(self).file_list@.len() <==> r == Err::<
                FileSystemPageProvider,
                ProviderError,
            >(ProviderError::IndexOutOfRange),
            index >= old(self).file_list@.len() ==> *final(self) == *old(self),
            old(self).cache@.contains_key(index) ==> {
                &&& *final(self) == *old(self)
                &&& (r is Ok <==> image_decodable(old(self).cache@[index]@))
                &&& (r is Ok ==> r.unwrap().source@ == old(self).cache@[index]@)
                &&& (!image_decodable(old(self).cache@[index]@) ==> r == Err::<
                    FileSystemPageProvider,
                    ProviderError,
                >(ProviderError::DecodeError))
            },
            index < old(self).file_list@.len() && !old(self).cache@.contains_key(index)
                ==> final(self).extractions@ == old(self).extractions@ + 1,
            index < old(self).file_list@.len() && !old(self).cache@.contains_key(index) ==> {
                ||| (r == Err::<FileSystemPageProvider, ProviderError>(
                    ProviderError::ArchiveReadError,
                ) && final(self).cache@ == old(self).cache@)
                ||| (exists|b: Vec<u8>|
                    {
                        &&& final(self).cache@ == old(self).cache@.insert(index, b)
                        &&& (r is Ok <==> image_decodable(b@))
                        &&& (r is Ok ==> r.unwrap().source@ == b@)
                        &&& (!image_decodable(b@) ==> r == Err::<
                            FileSystemPageProvider,
                            ProviderError,
                        >(ProviderError::DecodeError))
                    })
            },
            r is Ok ==> {
                &&& index < old(self).file_list@.len()
                &&& r.unwrap().file_name == old(self).file_list@[index as int]
                &&& image_decodable(r.unwrap().source@)
                &&& final(self).cache@.contains_key(index)
                &&& final(self).cache@[index]@ == r.unwrap().source@
            },
            r is Err ==> r == Err::<FileSystemPageProvider, ProviderError>(
                ProviderError::IndexOutOfRange,
            ) || r == Err::<FileSystemPageProvider, ProviderError>(
                ProviderError::ArchiveReadError,
            ) || r == Err::<FileSystemPageProvider, ProviderError>(ProviderError::DecodeError),
    {
        if index >= self.file_list.len() {
            return Err(ProviderError::IndexOutOfRange);
        }
        let file_name = self.file_list[index].clone();
        let cached = self.cache.get(&index);
        match cached {
            Some(b) => {
                let img_opt = decode_image(b);
                let ghost src = b@;
                match img_opt {
                    Some(img) => Ok(
                        FileSystemPageProvider {
                            file_name,
                            image_buffer: img,
                            source: Ghost(src),
                        },
                    ),
                    None => Err(ProviderError::DecodeError),
                }
            },
            None => {
                proof {
                    self.extractions@ = self.extractions@ + 1;
                }
                let bytes = match self.archive.extract_entry(&file_name) {
                    Ok(bs) => bs,
                    Err(_) => {
                        return Err(ProviderError::ArchiveReadError);
                    },
                };
                let img_opt = decode_image(&bytes);
                let ghost src = bytes@;
                self.cache.insert(index, bytes);
                match img_opt {
                    Some(img) => Ok(
                        FileSystemPageProvider {
                            file_name,
                            image_buffer: img,
                            source: Ghost(src),
                        },
                    ),
                    None => Err(ProviderError::DecodeError),
                }
            },
        }
    }
}

impl FileSystemPageProvider {
    /// A fresh copy of the decoded raster image.
    pub fn get_image(&self) -> (r: image::DynamicImage)
        ensures
            r == self.image_buffer,
    {
        self.image_buffer.clone()
    }

    /// The archive member name this page was decoded from.
    pub fn get_file_name(&self) -> (r: Result<String, ProviderError>)
        ensures
            r is Ok,
            r.unwrap() == self.file_name,
    {
        Ok(self.file_name.clone())
    }
}

/// Requesting pages of one comic by increasing index yields entry names in
/// non-decreasing lexicographic order: the name resolved for a lower index
/// never sorts after the name resolved for a higher one.
pub proof fn lemma_pages_sorted<A: ArchiveSource>(
    c: FileSystemComicProvider<A>,
    i: int,
    j: int,
)
    requires
        c.wf(),
        0 <= i <= j < c.file_list@.len(),
    ensures
        crate::order::lex_le(c.file_list@[i]@, c.file_list@[j]@),
{
    if i == j {
        crate::order::lemma_lex_le_refl(c.file_list@[i]@);
    }
}

/// Pages compare by file name alone, independent of their pixel data.
impl PartialEq for FileSystemPageProvider {
    fn eq(&self, other: &Self) -> (r: bool) {
        self.file_name == other.file_name
    }
}

impl vstd::std_specs::cmp::PartialEqSpecImpl for FileSystemPageProvider {
    open spec fn obeys_eq_spec() -> bool {
        true
    }

    open spec fn eq_spec(&self, other: &Self) -> bool {
        self.file_name@ == other.file_name@
    }
}

/// Pages order by file name alone, in the same lexicographic order that
/// arranges a comic's entry list.
impl PartialOrd for FileSystemPageProvider {
    fn partial_cmp(&self, other: &Self) -> (r: Option<core::cmp::Ordering>) {
        if self.file_name == other.file_name {
            Some(core::cmp::Ordering::Equal)
        } else if crate::order::str_lex_le(self.file_name.as_str(), other.file_name.as_str()) {
            Some(core::cmp::Ordering::Less)
        } else {
            Some(core::cmp::Ordering::Greater)
        }
    }
}

impl vstd::std_specs::cmp::PartialOrdSpecImpl for FileSystemPageProvider {
    open spec fn obeys_partial_cmp_spec() -> bool {
        true
    }

    open spec fn partial_cmp_spec(&self, other: &Self) -> Option<core::cmp::Ordering> {
        if self.file_name@ == other.file_name@ {
            Some(core::cmp::Ordering::Equal)
        } else if crate::order::lex_le(self.file_name@, other.file_name@) {
            Some(core::cmp::Ordering::Less)
        } else {
            Some(core::cmp::Ordering::Greater)
        }
    }
}

} // verus!

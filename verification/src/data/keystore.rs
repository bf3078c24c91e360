//! The device root key.

use crate::data::crypto::random_bytes;
use crate::model::opt;
use vstd::prelude::*;

verus! {

/// Where the device root key comes from, of which all record keys are derived.
pub trait PlatformKeystore {
    /// The device root key.
    fn root_key(&self) -> [u8; 32];
}

/// A root key kept in a file.
pub struct FileKeystore {
    key: [u8; 32],
}

impl View for FileKeystore {
    type V = Seq<u8>;

    closed spec fn view(&self) -> Seq<u8> {
        self.key@
    }
}

/// The key that a file's contents hold: they are the key where they are
/// thirty-two bytes long, and nothing else is.
pub open spec fn held_key(contents: Option<Seq<u8>>) -> Option<Seq<u8>> {
    match contents {
        Some(bytes) => if bytes.len() == 32 {
            Some(bytes)
        } else {
            None
        },
        None => None,
    }
}

/// The first thirty-two bytes of a run as an array.
fn key_of(bytes: &[u8]) -> (r: [u8; 32])
    requires
        bytes@.len() == 32,
    ensures
        r@ == bytes@,
{
    let mut key: [u8; 32] = [0u8; 32];
    let mut i: usize = 0;
    while i < 32
        invariant
            i <= 32,
            bytes@.len() == 32,
            forall|j: int| 0 <= j < i ==> key@[j] == bytes@[j],
        decreases 32 - i,
    {
        key[i] = bytes[i];
        i += 1;
    }
    assert(key@ =~= bytes@);
    key
}

impl FileKeystore {
    /// The key that a file's contents hold.
    pub fn from_contents(contents: &Option<Vec<u8>>) -> (r: Option<FileKeystore>)
        ensures
            opt(r) == held_key(opt(*contents)),
    {
        match contents {
            Some(bytes) => if bytes.len() == 32 {
                Some(FileKeystore { key: key_of(bytes.as_slice()) })
            } else {
                None
            },
            None => None,
        }
    }

    /// The key of a file's contents, and otherwise a fresh random one; with it,
    /// the bytes to be written to the file where the key is fresh.
    pub fn load_or_create(contents: &Option<Vec<u8>>) -> (r: (FileKeystore, Option<Vec<u8>>))
        ensures
            match held_key(opt(*contents)) {
                Some(key) => r.0@ == key && r.1 is None,
                None => r.0@.len() == 32 && opt(r.1) == Some(r.0@),
            },
    {
        match FileKeystore::from_contents(contents) {
            Some(k) => (k, None),
            None => {
                let k = FileKeystore::ephemeral();
                let bytes = vstd::slice::slice_to_vec(k.key.as_slice());
                (k, Some(bytes))
            },
        }
    }

    /// A fresh random key that is kept nowhere.
    pub fn ephemeral() -> (r: FileKeystore)
        ensures
            r@.len() == 32,
    {
        FileKeystore { key: random_bytes::<32>() }
    }
}

impl PlatformKeystore for FileKeystore {
    fn root_key(&self) -> (r: [u8; 32])
        ensures
            r@ == self@,
    {
        self.key
    }
}

/// A key that was written to its file is read back from it.
pub proof fn law_written_key_is_read_back(key: Seq<u8>)
    requires
        key.len() == 32,
    ensures
        held_key(Some(key)) == Some(key),
{
}

/// Contents that are not thirty-two bytes long hold no key, and no file holds none.
pub proof fn law_only_whole_keys_are_held(contents: Seq<u8>)
    ensures
        held_key(None) is None,
        contents.len() != 32 ==> held_key(Some(contents)) is None,
{
}

} // verus!

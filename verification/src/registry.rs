use vstd::prelude::*;
use std::path::PathBuf;
use crate::error::ErrorKind;

verus! {

/// `std::path::PathBuf`, carried as an opaque value.
#[verifier::external_type_specification]
#[verifier::external_body]
pub struct ExPathBuf(std::path::PathBuf);

/// The registry of known key files: two ordered lists of paths, each with
/// an optional default selection.
#[derive(Debug)]
pub struct Config {
    /// Paths of the registered public keys.
    pub public_keys: Vec<PathBuf>,
    /// Index of the default public key in `public_keys`.
    pub default_public_key_index: Option<usize>,
    /// Paths of the registered private keys.
    pub private_keys: Vec<PathBuf>,
    /// Index of the default private key in `private_keys`.
    pub default_private_key_index: Option<usize>,
}

/// The key that a default selection picks from a list, if it picks one.
pub open spec fn selected(keys: Seq<PathBuf>, default_index: Option<usize>) -> Option<PathBuf> {
    match default_index {
        Some(i) => if i < keys.len() {
            Some(keys[i as int])
        } else {
            None
        },
        None => None,
    }
}

/// The default selection after the key at `index` has left the list: gone
/// with its key, moved down by one behind it, unchanged before it.
pub open spec fn selection_after_removal(default_index: Option<usize>, index: usize) -> Option<
    usize,
> {
    match default_index {
        Some(d) => if d == index {
            None
        } else if d > index {
            Some((d - 1) as usize)
        } else {
            Some(d)
        },
        None => None,
    }
}

/// Removes the key at `index` from one list and adjusts its selection.
fn remove_key(keys: &mut Vec<PathBuf>, default_index: &mut Option<usize>, index: usize) -> (result:
    Result<(), ErrorKind>)
    ensures
        index < old(keys).len() ==> {
            &&& result is Ok
            &&& final(keys)@ == old(keys)@.remove(index as int)
            &&& *final(default_index) == selection_after_removal(*old(default_index), index)
        },
        index >= old(keys).len() ==> {
            &&& result matches Err(e) && e == ErrorKind::InvalidIndex
            &&& final(keys)@ == old(keys)@
            &&& *final(default_index) == *old(default_index)
        },
{
    if index >= keys.len() {
        return Err(ErrorKind::InvalidIndex);
    }
    keys.remove(index);
    if let Some(d) = *default_index {
        if d == index {
            *default_index = None;
        } else if d > index {
            *default_index = Some(d - 1);
        }
    }
    Ok(())
}

/// Looks up the key that a selection picks.
fn select<'a>(keys: &'a Vec<PathBuf>, default_index: Option<usize>) -> (key: Option<&'a PathBuf>)
    ensures
        match key {
            Some(path) => selected(keys@, default_index) == Some(*path),
            None => selected(keys@, default_index) is None,
        },
{
    match default_index {
        Some(i) => if i < keys.len() {
            Some(&keys[i])
        } else {
            None
        },
        None => None,
    }
}

impl Config {
    /// A registry without keys and without defaults.
    pub fn new() -> (config: Config)
        ensures
            config.public_keys@.len() == 0,
            config.private_keys@.len() == 0,
            config.default_public_key_index is None,
            config.default_private_key_index is None,
    {
        Config {
            public_keys: Vec::new(),
            default_public_key_index: None,
            private_keys: Vec::new(),
            default_private_key_index: None,
        }
    }

    /// Registers a public key at the end of the list. Where no default is
    /// set, the first place of the list becomes the default.
    pub fn add_public_key(&mut self, path: PathBuf)
        ensures
            final(self).public_keys@ == old(self).public_keys@.push(path),
            final(self).default_public_key_index == match old(self).default_public_key_index {
                Some(d) => Some(d),
                None => Some(0usize),
            },
            final(self).private_keys@ == old(self).private_keys@,
            final(self).default_private_key_index == old(self).default_private_key_index,
    {
        self.public_keys.push(path);
        if self.default_public_key_index.is_none() {
            self.default_public_key_index = Some(0);
        }
    }

    /// Registers a private key at the end of the list. Where no default is
    /// set, the first place of the list becomes the default.
    pub fn add_private_key(&mut self, path: PathBuf)
        ensures
            final(self).private_keys@ == old(self).private_keys@.push(path),
            final(self).default_private_key_index == match old(self).default_private_key_index {
                Some(d) => Some(d),
                None => Some(0usize),
            },
            final(self).public_keys@ == old(self).public_keys@,
            final(self).default_public_key_index == old(self).default_public_key_index,
    {
        self.private_keys.push(path);
        if self.default_private_key_index.is_none() {
            self.default_private_key_index = Some(0);
        }
    }

    /// Makes the public key at `index` the default.
    ///
    /// An index past the end gives [`ErrorKind::InvalidIndex`] and changes
    /// nothing.
    pub fn set_default_public_key(&mut self, index: usize) -> (result: Result<(), ErrorKind>)
        ensures
            final(self).public_keys@ == old(self).public_keys@,
            final(self).private_keys@ == old(self).private_keys@,
            final(self).default_private_key_index == old(self).default_private_key_index,
            index < old(self).public_keys@.len() ==> {
                &&& result is Ok
                &&& final(self).default_public_key_index == Some(index)
            },
            index >= old(self).public_keys@.len() ==> {
                &&& result matches Err(e) && e == ErrorKind::InvalidIndex
                &&& final(self).default_public_key_index == old(self).default_public_key_index
            },
    {
        if index >= self.public_keys.len() {
            return Err(ErrorKind::InvalidIndex);
        }
        self.default_public_key_index = Some(index);
        Ok(())
    }

    /// Makes the private key at `index` the default.
    ///
    /// An index past the end gives [`ErrorKind::InvalidIndex`] and changes
    /// nothing.
    pub fn set_default_private_key(&mut self, index: usize) -> (result: Result<(), ErrorKind>)
        ensures
            final(self).private_keys@ == old(self).private_keys@,
            final(self).public_keys@ == old(self).public_keys@,
            final(self).default_public_key_index == old(self).default_public_key_index,
            index < old(self).private_keys@.len() ==> {
                &&& result is Ok
                &&& final(self).default_private_key_index == Some(index)
            },
            index >= old(self).private_keys@.len() ==> {
                &&& result matches Err(e) && e == ErrorKind::InvalidIndex
                &&& final(self).default_private_key_index == old(self).default_private_key_index
            },
    {
        if index >= self.private_keys.len() {
            return Err(ErrorKind::InvalidIndex);
        }
        self.default_private_key_index = Some(index);
        Ok(())
    }

    /// Forgets every public key and the default among them. The private
    /// keys are left as they are.
    pub fn clear_public_key(&mut self)
        ensures
            final(self).public_keys@.len() == 0,
            final(self).default_public_key_index is None,
            final(self).private_keys@ == old(self).private_keys@,
            final(self).default_private_key_index == old(self).default_private_key_index,
    {
        self.public_keys = Vec::new();
        self.default_public_key_index = None;
    }

    /// Forgets every private key and the default among them. The public
    /// keys are left as they are.
    pub fn clear_private_key(&mut self)
        ensures
            final(self).private_keys@.len() == 0,
            final(self).default_private_key_index is None,
            final(self).public_keys@ == old(self).public_keys@,
            final(self).default_public_key_index == old(self).default_public_key_index,
    {
        self.private_keys = Vec::new();
        self.default_private_key_index = None;
    }

    /// Removes the public key at `index`.
    ///
    /// An index past the end gives [`ErrorKind::InvalidIndex`] and changes
    /// nothing. Otherwise the key leaves the list; the default is dropped
    /// if it was this key and follows its key one place down if it stood
    /// behind it. The private keys are left as they are.
    pub fn remove_public_key(&mut self, index: usize) -> (result: Result<(), ErrorKind>)
        ensures
            index < old(self).public_keys@.len() ==> {
                &&& result is Ok
                &&& final(self).public_keys@ == old(self).public_keys@.remove(index as int)
                &&& final(self).default_public_key_index == selection_after_removal(
                    old(self).default_public_key_index,
                    index,
                )
            },
            index >= old(self).public_keys@.len() ==> {
                &&& result matches Err(e) && e == ErrorKind::InvalidIndex
                &&& final(self).public_keys@ == old(self).public_keys@
                &&& final(self).default_public_key_index == old(self).default_public_key_index
            },
            final(self).private_keys@ == old(self).private_keys@,
            final(self).default_private_key_index == old(self).default_private_key_index,
    {
        remove_key(&mut self.public_keys, &mut self.default_public_key_index, index)
    }

    /// Removes the private key at `index`.
    ///
    /// An index past the end gives [`ErrorKind::InvalidIndex`] and changes
    /// nothing. Otherwise the key leaves the list; the default is dropped
    /// if it was this key and follows its key one place down if it stood
    /// behind it. The public keys are left as they are.
    pub fn remove_private_key(&mut self, index: usize) -> (result: Result<(), ErrorKind>)
        ensures
            index < old(self).private_keys@.len() ==> {
                &&& result is Ok
                &&& final(self).private_keys@ == old(self).private_keys@.remove(index as int)
                &&& final(self).default_private_key_index == selection_after_removal(
                    old(self).default_private_key_index,
                    index,
                )
            },
            index >= old(self).private_keys@.len() ==> {
                &&& result matches Err(e) && e == ErrorKind::InvalidIndex
                &&& final(self).private_keys@ == old(self).private_keys@
                &&& final(self).default_private_key_index == old(self).default_private_key_index
            },
            final(self).public_keys@ == old(self).public_keys@,
            final(self).default_public_key_index == old(self).default_public_key_index,
    {
        remove_key(&mut self.private_keys, &mut self.default_private_key_index, index)
    }

    /// The default public key: the one at the default index, if there is a
    /// default and it lies within the list.
    pub fn default_public_key(&self) -> (key: Option<&PathBuf>)
        ensures
            match key {
                Some(path) => selected(self.public_keys@, self.default_public_key_index) == Some(
                    *path,
                ),
                None => selected(self.public_keys@, self.default_public_key_index) is None,
            },
    {
        select(&self.public_keys, self.default_public_key_index)
    }

    /// The default private key: the one at the default index, if there is a
    /// default and it lies within the list.
    pub fn default_private_key(&self) -> (key: Option<&PathBuf>)
        ensures
            match key {
                Some(path) => selected(self.private_keys@, self.default_private_key_index)
                    == Some(*path),
                None => selected(self.private_keys@, self.default_private_key_index) is None,
            },
    {
        select(&self.private_keys, self.default_private_key_index)
    }
}

/// Removing a key other than the default leaves the default key what it
/// was, wherever the default pointed within the list.
pub proof fn lemma_removal_keeps_default(keys: Seq<PathBuf>, default_index: Option<usize>, index: usize)
    requires
        index < keys.len(),
        default_index matches Some(d) && d < keys.len() && d != index,
    ensures
        selected(keys.remove(index as int), selection_after_removal(default_index, index))
            == selected(keys, default_index),
{
}

/// Removing the default key leaves no default.
pub proof fn lemma_removal_drops_default(keys: Seq<PathBuf>, index: usize)
    requires
        index < keys.len(),
    ensures
        selected(keys.remove(index as int), selection_after_removal(Some(index), index)) is None,
{
}

} // verus!

//! Identification of console game images against a catalog of known games.
//!
//! A file is taken through four steps. It is classified by its extension,
//! and an archive by the names of its entries ([`system`]). Its name is
//! matched to the title of a catalog entry by a similarity search
//! ([`matcher`]). Its digest is computed, over the whole image or over the
//! regions that an NDS header names ([`rom_hashes`]), reading through an
//! archive as if it were the image itself ([`archive`]). The digest then
//! confirms the match where it is one of the digests that the catalog holds
//! for the entry ([`rom`]).
//!
//! The library reads no files. A caller hands it the bytes of a file
//! together with its path, and gets plain values back.
//!
//! Three things are computed by other crates and taken on trust, each behind
//! a function that says what is assumed of it: the contents of a zip archive
//! (`zip`), the MD5 digest (`md5`) and the similarity ranking
//! (`rust_fuzzy_search`). Everything else is verified.

pub mod archive;
pub mod catalog;
pub mod error;
pub mod matcher;
pub mod rom;
pub mod rom_hashes;
pub mod system;
pub mod text;

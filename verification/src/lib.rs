//! Conversion between native file paths and slash paths.
//!
//! A slash path is text whose components are separated by `/` and by nothing
//! else. A native path follows one of two conventions. Under the Unix
//! convention the separator is `/` as well, and a path converts to and from
//! its slash form unchanged. Under the Windows convention the separator is
//! `\`, and a path may open with a prefix (a drive, a network share, or one
//! of their verbatim forms) that has no slash form of its own and is carried
//! over as it stands.
//!
//! Both conventions are modelled here, so either can be used on any host:
//! [`Path`], [`PathBuf`] and [`CowPath`] take the convention as a constant
//! parameter, `false` for Unix and `true` for Windows.
//!
//! The conversions are the methods of [`PathExt`], [`PathBufExt`] and
//! [`CowExt`]. What they compute is stated over the text of a path, a
//! sequence of [`Unit`]s, and over its components:
//!
//! - [`text`] has platform text and its strict and lossy reading;
//! - [`segment`], [`prefix`] and [`parse`] say what the components of a
//!   text are, and compute them;
//! - [`name`] says what the components name, which is what makes two paths
//!   equal;
//! - [`decode`] and [`encode`] say what the native text of a slash path and
//!   the slash text of a native path are, and compute them;
//! - [`laws`] and [`round_trip`] prove what holds of the two together.
pub mod component;
pub mod decode;
pub mod encode;
pub mod ext;
pub mod laws;
pub mod name;
pub mod parse;
pub mod path;
pub mod prefix;
pub mod round_trip;
pub mod segment;
pub mod text;

pub use component::{Component, ComponentView, Syntax};
pub use decode::{str_to_path, str_to_pathbuf};
pub use ext::{CowExt, PathBufExt, PathExt};
pub use name::{name_of, ComponentName, Prefix, PrefixView};
pub use path::{
    ends_with_main_sep, CowPath, Path, PathBuf, UnixCowPath, UnixPath, UnixPathBuf, WindowsCowPath,
    WindowsPath, WindowsPathBuf,
};
pub use text::{NativeStr, Unit, REPLACEMENT_CHARACTER};

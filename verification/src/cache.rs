//! Where prepared videos are kept: one directory for each source, below one root.

use crate::text::{hex, hex_is_positional, hex_tells_apart, push_hex, trim, trimmed};
use std::collections::hash_map::DefaultHasher;
use std::hash::{Hash, Hasher};
use std::path::PathBuf;
use vstd::prelude::*;
use vstd::std_specs::hash::DefaultHasherAdditionalSpecFns;

verus! {

/// A path of the standard library: a sequence of components.
#[verifier::external_type_specification]
#[verifier::external_body]
pub struct ExPathBuf(PathBuf);

/// The components of a path, in order, as text.
pub uninterp spec fn path_parts(path: PathBuf) -> Seq<Seq<char>>;

/// What hashing a text writes into a hasher.
pub uninterp spec fn text_writes(text: Seq<char>) -> Seq<Seq<u8>>;

/// Whether `name` is one ordinary component: not empty, neither `.` nor `..`, and without a
/// separator or a drive mark.
pub open spec fn is_file_name(name: Seq<char>) -> bool {
    &&& name.len() > 0
    &&& !(name =~= seq!['.'])
    &&& !(name =~= seq!['.', '.'])
    &&& forall|i: int|
        0 <= i < name.len() ==> #[trigger] name[i] != '/' && name[i] != '\\' && name[i] != ':'
}

/// `Path::join`: a path with one more component, or with none more where the name is empty. Of a
/// name that is neither empty nor a single ordinary component nothing is stated: what an absolute path or a separator does depends on the platform. Where
/// paths have prefixes, as on Windows, the base is taken to have a complete one: a server without a
/// share takes the name for its share.
#[verifier::external_body]
pub(crate) fn join(base: &PathBuf, name: &str) -> (r: PathBuf)
    ensures
        is_file_name(name@) ==> path_parts(r) == path_parts(*base).push(name@),
        name@.len() == 0 ==> path_parts(r) == path_parts(*base),
{
    base.join(name)
}

/// `PathBuf::from`: the relative path of one component. Of other texts nothing is stated.
#[verifier::external_body]
pub(crate) fn relative_path(name: &str) -> (r: PathBuf)
    ensures
        is_file_name(name@) ==> path_parts(r) == seq![name@],
{
    PathBuf::from(name)
}

/// The user's cache directory, by the dirs crate. It depends on the environment of the process, so
/// nothing is stated of it.
pub assume_specification[ dirs::cache_dir ]() -> (r: Option<PathBuf>);

/// `str::hash`: hands a text to a hasher.
#[verifier::external_body]
pub(crate) fn hash_text(text: &str, hasher: &mut DefaultHasher)
    ensures
        final(hasher)@ == old(hasher)@ + text_writes(text@),
{
    text.hash(hasher);
}

/// The components of the cache root below the user's cache directory.
pub open spec fn root_parts(dir: Option<PathBuf>) -> Seq<Seq<char>> {
    (match dir {
        Some(d) => path_parts(d),
        None => seq![".cache"@],
    }).push("bad-apple"@)
}

/// The key of a source: the hash of its text, in hexadecimal.
pub open spec fn key_of(source: Seq<char>) -> Seq<char> {
    hex(DefaultHasher::spec_finish(text_writes(source)) as nat, 16)
}

/// The cache root below the user's cache directory, or below `.cache` where there is none.
pub fn cache_root_in(dir: Option<PathBuf>) -> (r: PathBuf)
    ensures
        path_parts(r) == root_parts(dir),
        path_parts(r) == match dir {
            Some(d) => path_parts(d).push("bad-apple"@),
            None => seq![".cache"@, "bad-apple"@],
        },
{
    proof {
        reveal_strlit(".cache");
        reveal_strlit("bad-apple");
    }
    let base = match dir {
        Some(d) => d,
        None => relative_path(".cache"),
    };
    join(&base, "bad-apple")
}

/// The cache root, below the user's cache directory.
pub fn cache_root() -> (r: PathBuf)
    ensures
        exists|dir: Option<PathBuf>|
            call_ensures(dirs::cache_dir, (), dir) && path_parts(r) == #[trigger] root_parts(dir),
{
    let dir = dirs::cache_dir();
    let ghost given = dir;
    let root = cache_root_in(dir);
    assert(path_parts(root) == root_parts(given));
    root
}

/// The key of a source.
pub fn cache_key(source: &str) -> (key: String)
    ensures
        key@ == key_of(source@),
        key@ == hex(DefaultHasher::spec_finish(text_writes(source@)) as nat, 16),
{
    let mut h = DefaultHasher::new();
    hash_text(source, &mut h);
    assert(h@ =~= text_writes(source@));
    let mut key = String::new();
    push_hex(&mut key, h.finish(), 16);
    key
}

proof fn lemma_hex_chars(n: nat, digits: nat)
    ensures
        hex(n, digits).len() == digits,
        forall|i: int|
            0 <= i < digits ==> '0' <= #[trigger] hex(n, digits)[i] <= '9' || 'a' <= hex(
                n,
                digits,
            )[i] <= 'f',
    decreases digits,
{
    if digits > 0 {
        lemma_hex_chars(n / 16, (digits - 1) as nat);
    }
}

/// A key is sixteen hexadecimal digits: one ordinary component, without white space at its ends.
pub proof fn key_is_file_name(source: Seq<char>)
    ensures
        key_of(source).len() == 16,
        forall|i: int|
            0 <= i < 16 ==> '0' <= #[trigger] key_of(source)[i] <= '9' || 'a' <= key_of(source)[i]
                <= 'f',
        is_file_name(key_of(source)),
        trim(key_of(source)) == key_of(source),
{
    lemma_hex_chars(DefaultHasher::spec_finish(text_writes(source)) as nat, 16);
    let key = key_of(source);
    assert('0' <= key[0] <= '9' || 'a' <= key[0] <= 'f');
    assert('0' <= key[15] <= '9' || 'a' <= key[15] <= 'f');
}

/// The directory of a source below a root.
pub fn entry_dir_in(root: &PathBuf, source: &str) -> (r: PathBuf)
    ensures
        path_parts(r) == path_parts(*root).push(key_of(source@)),
        path_parts(r).last() == hex(
            DefaultHasher::spec_finish(text_writes(source@)) as nat,
            16,
        ),
{
    let key = cache_key(source);
    proof {
        key_is_file_name(source@);
    }
    join(root, key.as_str())
}

/// The directory of a source.
pub fn entry_dir(source: &str) -> (r: PathBuf)
    ensures
        exists|dir: Option<PathBuf>|
            call_ensures(dirs::cache_dir, (), dir) && path_parts(r) == (#[trigger] root_parts(
                dir,
            )).push(key_of(source@)),
        path_parts(r).last() == hex(
            DefaultHasher::spec_finish(text_writes(source@)) as nat,
            16,
        ),
{
    let root = cache_root();
    let ghost dir = choose|dir: Option<PathBuf>|
        call_ensures(dirs::cache_dir, (), dir) && path_parts(root) == #[trigger] root_parts(dir);
    let r = entry_dir_in(&root, source);
    assert(path_parts(r) == root_parts(dir).push(key_of(source@)));
    r
}

/// The file that names the entry prepared last.
pub fn last_pointer_path(root: &PathBuf) -> (r: PathBuf)
    ensures
        path_parts(r) == path_parts(*root).push("last"@),
{
    proof {
        reveal_strlit("last");
    }
    join(root, "last")
}

/// The entry prepared last, by the text of the file that names it; the root itself where that text
/// is blank. Where it is neither blank nor a single ordinary component, which entry it is depends
/// on the platform.
pub fn last_cache_entry(root: &PathBuf, pointer: &str) -> (r: PathBuf)
    ensures
        is_file_name(trim(pointer@)) ==> path_parts(r) == path_parts(*root).push(trim(pointer@)),
        trim(pointer@).len() == 0 ==> path_parts(r) == path_parts(*root),
{
    let name = trimmed(pointer);
    join(root, name.as_str())
}

/// The entry that the key of a source leads to is the directory of that source: what was prepared
/// last is what plays without arguments.
pub proof fn pointer_leads_to_entry(root: PathBuf, source: Seq<char>)
    ensures
        is_file_name(trim(key_of(source))),
        path_parts(root).push(trim(key_of(source))) == path_parts(root).push(key_of(source)),
{
    key_is_file_name(source);
}

/// The frames of an entry.
pub fn frames_path(entry: &PathBuf) -> (r: PathBuf)
    ensures
        path_parts(r) == path_parts(*entry).push("frames.bin"@),
{
    proof {
        reveal_strlit("frames.bin");
    }
    join(entry, "frames.bin")
}

/// The audio of an entry.
pub fn audio_path(entry: &PathBuf) -> (r: PathBuf)
    ensures
        path_parts(r) == path_parts(*entry).push("audio.mp3"@),
{
    proof {
        reveal_strlit("audio.mp3");
    }
    join(entry, "audio.mp3")
}

/// The measures of an entry.
pub fn meta_path(entry: &PathBuf) -> (r: PathBuf)
    ensures
        path_parts(r) == path_parts(*entry).push("meta.txt"@),
{
    proof {
        reveal_strlit("meta.txt");
    }
    join(entry, "meta.txt")
}

/// The video that an entry was made of.
pub fn video_path(entry: &PathBuf) -> (r: PathBuf)
    ensures
        path_parts(r) == path_parts(*entry).push("video.mp4"@),
{
    proof {
        reveal_strlit("video.mp4");
    }
    join(entry, "video.mp4")
}

/// Two sources have the same key, and so the same entry, only where the hashes of their whole texts
/// are equal.
pub proof fn keys_tell_sources_apart(a: Seq<char>, b: Seq<char>)
    ensures
        key_of(a) == key_of(b) <==> DefaultHasher::spec_finish(text_writes(a))
            == DefaultHasher::spec_finish(text_writes(b)),
{
    if key_of(a) == key_of(b) {
        hex_tells_apart(
            DefaultHasher::spec_finish(text_writes(a)),
            DefaultHasher::spec_finish(text_writes(b)),
        );
    }
}

/// The highest digits of a key are those of the hash, all but the lowest four bits of it, and the
/// last digit is that of these four bits.
pub proof fn key_is_hash_in_hexadecimal(source: Seq<char>)
    ensures
        ({
            let hash = DefaultHasher::spec_finish(text_writes(source)) as nat;
            let d = hash % 16;
            &&& key_of(source).drop_last() == hex(hash / 16, 15)
            &&& d < 10 ==> key_of(source).last() as nat == '0' as nat + d
            &&& d >= 10 ==> key_of(source).last() as nat == 'a' as nat + (d - 10)
        }),
{
    let hash = DefaultHasher::spec_finish(text_writes(source)) as nat;
    hex_is_positional(hash / 16, hash % 16, 15);
}

/// The root is the user's cache directory, or `.cache`, and `bad-apple` below it.
pub proof fn root_is_below_cache_directory(dir: Option<PathBuf>)
    ensures
        root_parts(dir).last() == "bad-apple"@,
        dir is Some ==> root_parts(dir).drop_last() == path_parts(dir->0),
        dir is None ==> root_parts(dir).drop_last() == seq![".cache"@],
{
    if let Some(d) = dir {
        assert(root_parts(dir).drop_last() =~= path_parts(d));
    } else {
        assert(root_parts(dir).drop_last() =~= seq![".cache"@]);
    }
}

/// A text without separators and drive marks, that is neither empty nor one or two dots, is one
/// ordinary component, and no other text is.
pub proof fn ordinary_components(name: Seq<char>)
    ensures
        is_file_name(name) <==> {
            &&& name.len() > 0
            &&& !(name.len() == 1 && name[0] == '.')
            &&& !(name.len() == 2 && name[0] == '.' && name[1] == '.')
            &&& !name.contains('/')
            &&& !name.contains('\\')
            &&& !name.contains(':')
        },
{
    if is_file_name(name) {
        assert(name.len() == 1 && name[0] == '.' ==> name =~= seq!['.']);
        assert(name.len() == 2 && name[0] == '.' && name[1] == '.' ==> name =~= seq!['.', '.']);
    }
    if !name.contains('/') && !name.contains('\\') && !name.contains(':') {
        assert forall|i: int| 0 <= i < name.len() implies #[trigger] name[i] != '/' && name[i]
            != '\\' && name[i] != ':' by {
            assert(name.contains(name[i]));
        }
    }
}

} // verus!

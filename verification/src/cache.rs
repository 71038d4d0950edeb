//! Caches backed by the external database: how paths and files are encoded for it and when
//! what it holds is still valid. The database itself is the caller's.

use vstd::prelude::*;
use vstd::string::StringSliceAdditionalSpecFns;

verus! {

/// The separator of the components of a path.
pub const SEP: u8 = 0x2f;

/// The byte of a dot.
pub const DOT: u8 = 0x2e;

/// A value for the size of a file when the "file" is actually a directory.
pub const SIZE_FOR_DIRECTORY: i64 = -1;

/// A value for the size of a file when the "file" is actually not a file nor a directory.
pub const SIZE_FOR_NON_REGULAR: i64 = -2;

/// The component `.`, which names the directory itself.
pub open spec fn dot() -> Seq<u8> {
    seq![DOT]
}

/// The component `..`, which names the parent directory.
pub open spec fn dotdot() -> Seq<u8> {
    seq![DOT, DOT]
}

/// True if the path begins at the root.
pub open spec fn is_absolute(path: Seq<u8>) -> bool {
    path.len() > 0 && path[0] == SEP
}

/// The components with one more piece of a path taken in: an empty piece and `.` change
/// nothing, `..` takes the last component back unless there is none or it is `..` itself,
/// where it is dropped at the root and kept elsewhere, and any other piece is a component.
pub open spec fn taken(comps: Seq<Seq<u8>>, piece: Seq<u8>, absolute: bool) -> Seq<Seq<u8>> {
    if piece.len() == 0 || piece == dot() {
        comps
    } else if piece == dotdot() {
        if comps.len() > 0 && comps.last() != dotdot() {
            comps.drop_last()
        } else if absolute {
            comps
        } else {
            comps.push(piece)
        }
    } else {
        comps.push(piece)
    }
}

/// The components taken in over the first `n` bytes of a path, and the piece that is open
/// after them.
pub open spec fn scanned(path: Seq<u8>, n: int) -> (Seq<Seq<u8>>, Seq<u8>)
    decreases n,
{
    if n <= 0 {
        (Seq::empty(), Seq::empty())
    } else {
        let (comps, piece) = scanned(path, n - 1);
        if path[n - 1] == SEP {
            (taken(comps, piece, is_absolute(path)), Seq::empty())
        } else {
            (comps, piece.push(path[n - 1]))
        }
    }
}

/// The components of a path in its normal form, without the root.
pub open spec fn normal(path: Seq<u8>) -> Seq<Seq<u8>> {
    let (comps, piece) = scanned(path, path.len() as int);
    taken(comps, piece, is_absolute(path))
}

/// The components that a path in normal form is walked by: its own, or `.` alone for the
/// relative path without any.
pub open spec fn walked(comps: Seq<Seq<u8>>, absolute: bool) -> Seq<Seq<u8>> {
    if comps.len() == 0 && !absolute {
        seq![dot()]
    } else {
        comps
    }
}

/// As many `..` as there are components.
pub open spec fn ups(n: nat) -> Seq<Seq<u8>> {
    Seq::new(n, |i: int| dotdot())
}

/// The components that lead from `base` to `path`, both walked from index `i` on with `acc`
/// found so far, or `None` if nothing leads there. Components that both share at the
/// beginning are left out; where they part, each further component of `base` is left by
/// `..`; a base that goes up by `..` itself leads nowhere.
pub open spec fn leading(path: Seq<Seq<u8>>, base: Seq<Seq<u8>>, i: int, acc: Seq<Seq<u8>>) -> Option<
    Seq<Seq<u8>>,
>
    decreases path.len() + base.len() - i,
{
    if i < 0 {
        None
    } else if i >= path.len() && i >= base.len() {
        Some(acc)
    } else if i >= base.len() {
        Some(acc + path.skip(i))
    } else if i >= path.len() {
        leading(path, base, i + 1, acc.push(dotdot()))
    } else if acc.len() == 0 && path[i] == base[i] {
        leading(path, base, i + 1, acc)
    } else if base[i] == dot() {
        leading(path, base, i + 1, acc.push(path[i]))
    } else if base[i] == dotdot() {
        None
    } else {
        Some(acc + ups((base.len() - i) as nat) + path.skip(i))
    }
}

/// The path relative to the root where that is possible: the absolute flag and the
/// components of the relative path if the two are both absolute or both relative and the
/// root leads to the path, those of the path itself otherwise.
pub open spec fn relative(root: Seq<u8>, path: Seq<u8>) -> (bool, Seq<Seq<u8>>) {
    let pa = is_absolute(path);
    let ra = is_absolute(root);
    if pa != ra {
        (pa, normal(path))
    } else {
        match leading(walked(normal(path), pa), walked(normal(root), ra), 0, Seq::empty()) {
            Some(comps) => (false, renormal(comps, 0, Seq::empty())),
            None => (pa, normal(path)),
        }
    }
}

/// The components from index `i` on taken in after `acc`, as those of a relative path.
pub open spec fn renormal(comps: Seq<Seq<u8>>, i: int, acc: Seq<Seq<u8>>) -> Seq<Seq<u8>>
    decreases comps.len() - i,
{
    if i < 0 || i >= comps.len() {
        acc
    } else {
        renormal(comps, i + 1, taken(acc, comps[i], false))
    }
}

/// The components from index `i` on, each after a zero byte, appended to `acc`.
pub open spec fn joined(comps: Seq<Seq<u8>>, i: int, acc: Seq<u8>) -> Seq<u8>
    decreases comps.len() - i,
{
    if i < 0 || i >= comps.len() {
        acc
    } else {
        joined(comps, i + 1, acc.push(0u8) + comps[i])
    }
}

/// The encoding of a path relative to a root: `/` for a path that stays absolute, `.` for
/// any other, then each component that the path is walked by after a zero byte.
pub open spec fn encoded(root: Seq<u8>, path: Seq<u8>) -> Seq<u8> {
    let (absolute, comps) = relative(root, path);
    joined(
        walked(comps, absolute),
        0,
        if absolute {
            seq![SEP]
        } else {
            seq![DOT]
        },
    )
}

/// The components of a list of byte vectors.
pub open spec fn deep(comps: Seq<Vec<u8>>) -> Seq<Seq<u8>> {
    Seq::new(comps.len(), |i: int| comps[i]@)
}

/// Tells whether the piece is the given bytes.
fn is_bytes(piece: &Vec<u8>, bytes: &[u8]) -> (r: bool)
    ensures
        r == (piece@ == bytes@),
{
    if piece.len() != bytes.len() {
        return false;
    }
    let n: usize = piece.len();
    let mut i: usize = 0;
    while i < n
        invariant
            n == piece@.len(),
            n == bytes@.len(),
            0 <= i <= n,
            forall|j: int| 0 <= j < i ==> piece@[j] == bytes@[j],
        decreases n - i,
    {
        if piece[i] != bytes[i] {
            return false;
        }
        i += 1;
    }
    assert(piece@ =~= bytes@);
    true
}

/// Tells whether the piece is `.`.
fn is_dot(piece: &Vec<u8>) -> (r: bool)
    ensures
        r == (piece@ == dot()),
{
    let r = piece.len() == 1 && piece[0] == DOT;
    assert(r == (piece@ =~= dot()));
    r
}

/// Tells whether the piece is `..`.
fn is_dotdot(piece: &Vec<u8>) -> (r: bool)
    ensures
        r == (piece@ == dotdot()),
{
    let r = piece.len() == 2 && piece[0] == DOT && piece[1] == DOT;
    assert(r == (piece@ =~= dotdot()));
    r
}

/// Takes one more piece of a path in.
fn take_in(comps: &mut Vec<Vec<u8>>, piece: Vec<u8>, absolute: bool)
    ensures
        deep(final(comps)@) == taken(deep(old(comps)@), piece@, absolute),
{
    let ghost before = deep(comps@);
    if piece.len() == 0 || is_dot(&piece) {
    } else if is_dotdot(&piece) {
        let n: usize = comps.len();
        if n > 0 && !is_dotdot(&comps[n - 1]) {
            assert(before.last() == comps@[n - 1]@);
            comps.pop();
            assert(deep(comps@) =~= before.drop_last());
        } else if absolute {
            if n > 0 {
                assert(before.last() == comps@[n - 1]@);
            }
        } else {
            if n > 0 {
                assert(before.last() == comps@[n - 1]@);
            }
            comps.push(piece);
            assert(deep(comps@) =~= before.push(piece@));
        }
    } else {
        comps.push(piece);
        assert(deep(comps@) =~= before.push(piece@));
    }
}

/// Returns the components of a path in its normal form.
pub fn normalize(path: &[u8]) -> (comps: Vec<Vec<u8>>)
    ensures
        deep(comps@) == normal(path@),
{
    let n: usize = path.len();
    let absolute = n > 0 && path[0] == SEP;
    let mut comps: Vec<Vec<u8>> = Vec::new();
    let mut piece: Vec<u8> = Vec::new();
    let mut i: usize = 0;
    assert(deep(comps@) =~= Seq::<Seq<u8>>::empty());
    while i < n
        invariant
            n == path@.len(),
            absolute == is_absolute(path@),
            0 <= i <= n,
            (deep(comps@), piece@) == scanned(path@, i as int),
        decreases n - i,
    {
        if path[i] == SEP {
            take_in(&mut comps, piece, absolute);
            piece = Vec::new();
        } else {
            piece.push(path[i]);
        }
        i += 1;
    }
    take_in(&mut comps, piece, absolute);
    comps
}

/// Returns a copy of the bytes.
fn copy_bytes(bytes: &Vec<u8>) -> (r: Vec<u8>)
    ensures
        r@ == bytes@,
{
    let n: usize = bytes.len();
    let mut r: Vec<u8> = Vec::new();
    let mut i: usize = 0;
    while i < n
        invariant
            n == bytes@.len(),
            0 <= i <= n,
            r@ == bytes@.take(i as int),
        decreases n - i,
    {
        r.push(bytes[i]);
        i += 1;
        assert(r@ =~= bytes@.take(i as int));
    }
    assert(bytes@.take(n as int) =~= bytes@);
    r
}

/// Returns the components that the path is walked by.
fn walk(comps: Vec<Vec<u8>>, absolute: bool) -> (r: Vec<Vec<u8>>)
    ensures
        deep(r@) == walked(deep(comps@), absolute),
{
    if comps.len() == 0 && !absolute {
        let mut r: Vec<Vec<u8>> = Vec::new();
        let mut d: Vec<u8> = Vec::new();
        d.push(DOT);
        assert(d@ =~= dot());
        r.push(d);
        assert(deep(r@) =~= seq![dot()]);
        assert(deep(comps@) =~= Seq::<Seq<u8>>::empty());
        r
    } else {
        assert(comps@.len() == deep(comps@).len());
        comps
    }
}

/// Appends copies of the components from index `from` on.
fn append_from(acc: &mut Vec<Vec<u8>>, comps: &Vec<Vec<u8>>, from: usize)
    requires
        from <= comps@.len(),
    ensures
        deep(final(acc)@) == deep(old(acc)@) + deep(comps@).skip(from as int),
{
    let n: usize = comps.len();
    let mut k: usize = from;
    assert(deep(acc@) =~= deep(old(acc)@) + deep(comps@).subrange(from as int, k as int));
    while k < n
        invariant
            n == comps@.len(),
            from <= k <= n,
            deep(acc@) == deep(old(acc)@) + deep(comps@).subrange(from as int, k as int),
        decreases n - k,
    {
        let ghost before = deep(acc@);
        acc.push(copy_bytes(&comps[k]));
        k += 1;
        assert(deep(acc@) =~= before.push(comps@[k - 1]@));
        assert(deep(acc@) =~= deep(old(acc)@) + deep(comps@).subrange(from as int, k as int));
    }
    assert(deep(comps@).subrange(from as int, n as int) =~= deep(comps@).skip(from as int));
}

/// Appends one `..`.
fn append_up(acc: &mut Vec<Vec<u8>>)
    ensures
        deep(final(acc)@) == deep(old(acc)@).push(dotdot()),
{
    let ghost before = deep(acc@);
    let mut d: Vec<u8> = Vec::new();
    d.push(DOT);
    d.push(DOT);
    assert(d@ =~= dotdot());
    acc.push(d);
    assert(deep(acc@) =~= before.push(dotdot()));
}

/// Returns the components that lead from `base` to `path`, if anything leads there.
fn lead(path: &Vec<Vec<u8>>, base: &Vec<Vec<u8>>) -> (r: Option<Vec<Vec<u8>>>)
    ensures
        match r {
            Some(comps) => leading(deep(path@), deep(base@), 0, Seq::empty()) == Some(deep(comps@)),
            None => leading(deep(path@), deep(base@), 0, Seq::empty()) is None,
        },
{
    let np: usize = path.len();
    let nb: usize = base.len();
    let mut acc: Vec<Vec<u8>> = Vec::new();
    let mut i: usize = 0;
    assert(deep(acc@) =~= Seq::<Seq<u8>>::empty());
    while i < np || i < nb
        invariant
            np == path@.len(),
            nb == base@.len(),
            0 <= i,
            i <= np || i <= nb,
            leading(deep(path@), deep(base@), i as int, deep(acc@)) == leading(
                deep(path@),
                deep(base@),
                0,
                Seq::empty(),
            ),
        decreases np + nb - i,
    {
        if i >= nb {
            append_from(&mut acc, path, i);
            return Some(acc);
        } else if i >= np {
            append_up(&mut acc);
        } else if acc.len() == 0 && is_bytes(&path[i], base[i].as_slice()) {
            assert(deep(acc@).len() == 0);
        } else if is_dot(&base[i]) {
            let ghost before = deep(acc@);
            acc.push(copy_bytes(&path[i]));
            assert(deep(acc@) =~= before.push(path@[i as int]@));
        } else if is_dotdot(&base[i]) {
            return None;
        } else {
            let ghost start = deep(acc@);
            let mut k: usize = i;
            assert(deep(acc@) =~= start + ups(0));
            while k < nb
                invariant
                    i <= k <= nb,
                    deep(acc@) == start + ups((k - i) as nat),
                decreases nb - k,
            {
                append_up(&mut acc);
                k += 1;
                assert(deep(acc@) =~= start + ups((k - i) as nat));
            }
            append_from(&mut acc, path, i);
            return Some(acc);
        }
        i += 1;
    }
    Some(acc)
}

/// Takes the components in again, as those of a relative path.
fn renormalize(comps: Vec<Vec<u8>>) -> (r: Vec<Vec<u8>>)
    ensures
        deep(r@) == renormal(deep(comps@), 0, Seq::empty()),
{
    let n: usize = comps.len();
    let mut r: Vec<Vec<u8>> = Vec::new();
    let mut i: usize = 0;
    assert(deep(r@) =~= Seq::<Seq<u8>>::empty());
    while i < n
        invariant
            n == comps@.len(),
            0 <= i <= n,
            renormal(deep(comps@), i as int, deep(r@)) == renormal(
                deep(comps@),
                0,
                Seq::empty(),
            ),
        decreases n - i,
    {
        take_in(&mut r, copy_bytes(&comps[i]), false);
        i += 1;
    }
    r
}

/// Encodes a path (possibly) relative to the root path as a byte vector: `.` and the
/// components of the relative path, each after a zero byte, where the root leads to the path;
/// the components of the path itself otherwise, after `/` if it is absolute.
pub fn encode_path(root: &str, path: &str) -> (ret: Vec<u8>)
    ensures
        ret@ == encoded(root.spec_bytes(), path.spec_bytes()),
{
    let rootb = root.as_bytes();
    let pathb = path.as_bytes();
    let ra = rootb.len() > 0 && rootb[0] == SEP;
    let pa = pathb.len() > 0 && pathb[0] == SEP;
    let own = normalize(pathb);
    let (absolute, comps): (bool, Vec<Vec<u8>>) = if pa != ra {
        (pa, own)
    } else {
        let p = walk(copy_comps(&own), pa);
        let b = walk(normalize(rootb), ra);
        match lead(&p, &b) {
            Some(rel) => (false, renormalize(rel)),
            None => (pa, own),
        }
    };
    let walkable = walk(comps, absolute);
    let mut ret: Vec<u8> = Vec::new();
    ret.push(if absolute {
        SEP
    } else {
        DOT
    });
    let ghost init = ret@;
    assert(init =~= if absolute {
        seq![SEP]
    } else {
        seq![DOT]
    });
    let n: usize = walkable.len();
    let mut i: usize = 0;
    while i < n
        invariant
            n == walkable@.len(),
            0 <= i <= n,
            joined(deep(walkable@), i as int, ret@) == joined(deep(walkable@), 0, init),
        decreases n - i,
    {
        let ghost before = ret@;
        ret.push(0);
        let comp = &walkable[i];
        let m: usize = comp.len();
        let mut k: usize = 0;
        while k < m
            invariant
                m == comp@.len(),
                0 <= k <= m,
                ret@ == before.push(0u8) + comp@.take(k as int),
            decreases m - k,
        {
            ret.push(comp[k]);
            k += 1;
            assert(ret@ =~= before.push(0u8) + comp@.take(k as int));
        }
        assert(comp@.take(m as int) =~= comp@);
        i += 1;
    }
    ret
}

/// Returns a copy of the components.
fn copy_comps(comps: &Vec<Vec<u8>>) -> (r: Vec<Vec<u8>>)
    ensures
        deep(r@) == deep(comps@),
{
    let mut r: Vec<Vec<u8>> = Vec::new();
    assert(deep(r@) =~= Seq::<Seq<u8>>::empty());
    append_from(&mut r, comps, 0);
    assert(deep(comps@).skip(0) =~= deep(comps@));
    assert(Seq::<Seq<u8>>::empty() + deep(comps@) =~= deep(comps@));
    r
}

/// An MD5 hash.
#[derive(Clone, Copy, Debug, PartialEq, Eq)]
pub struct MD5Hash(pub [u8; 16]);

/// Makes an MD5 hash from given byte slice. The slice should be 16 bytes long.
pub fn md5_hash_from_slice(h: &[u8]) -> (hash: Option<MD5Hash>)
    ensures
        match hash {
            Some(m) => h@.len() == 16 && m.0@ == h@,
            None => h@.len() != 16,
        },
{
    if h.len() == 16 {
        let m = MD5Hash(
            [
                h[0],
                h[1],
                h[2],
                h[3],
                h[4],
                h[5],
                h[6],
                h[7],
                h[8],
                h[9],
                h[10],
                h[11],
                h[12],
                h[13],
                h[14],
                h[15],
            ],
        );
        assert(m.0@ =~= h@);
        Some(m)
    } else {
        None
    }
}

/// The kind of a file, as the file system tells it.
#[derive(Clone, Copy, Debug, PartialEq, Eq, Structural)]
pub enum FileType {
    RegularFile,
    Directory,
    Other,
}

/// What the file system tells of a file.
#[derive(Clone, Copy, Debug, PartialEq, Eq)]
pub struct FileStat {
    /// The kind of the file.
    pub kind: FileType,
    /// The size of the file in bytes.
    pub size: u64,
    /// The time of the last modification, in milliseconds.
    pub modified: u64,
}

/// A number of the file system as the database holds it: limited to what an `i64` holds.
pub open spec fn stored(n: u64) -> i64 {
    if n > i64::MAX {
        i64::MAX
    } else {
        n as i64
    }
}

/// Returns a number of the file system as the database holds it.
pub fn to_stored(n: u64) -> (r: i64)
    ensures
        r == stored(n),
{
    if n > i64::MAX as u64 {
        i64::MAX
    } else {
        n as i64
    }
}

/// Calculates the value for the size of a file from given `stat` result.
pub fn size_from_filestat(st: &FileStat) -> (size: i64)
    ensures
        size == match st.kind {
            FileType::RegularFile => stored(st.size),
            FileType::Directory => SIZE_FOR_DIRECTORY,
            FileType::Other => SIZE_FOR_NON_REGULAR,
        },
{
    match st.kind {
        FileType::RegularFile => to_stored(st.size),
        FileType::Directory => SIZE_FOR_DIRECTORY,
        FileType::Other => SIZE_FOR_NON_REGULAR,
    }
}

/// The cache result from the database.
#[derive(Clone, Copy, Debug, PartialEq, Eq)]
pub enum CacheResult<T> {
    /// The cached entry is present and valid with given row ID and (partial) value.
    Valid(i64, T),
    /// The cached entry is present but invalid.
    Invalid(i64),
    /// There is no cached entry.
    Absent,
}

/// Checks the status of a cached list of entries in the directory, given the row of the
/// directory in the database, if there is one, as its ID and its time of modification, and
/// what the file system tells of the directory now, if it tells anything. The list is
/// valid as long as the directory is one and has not been modified since.
pub fn check_cached_entries(row: Option<(i64, i64)>, stat: Option<FileStat>) -> (res: CacheResult<()>)
    ensures
        res == match row {
            Some((dirid, dirmtime)) => match stat {
                Some(st) => if st.kind is Directory && stored(st.modified) == dirmtime {
                    CacheResult::Valid(dirid, ())
                } else {
                    CacheResult::Invalid(dirid)
                },
                None => CacheResult::Invalid(dirid),
            },
            None => CacheResult::Absent,
        },
{
    match row {
        Some((dirid, dirmtime)) => match stat {
            Some(st) => {
                let isdir = match st.kind {
                    FileType::Directory => true,
                    _ => false,
                };
                if isdir && to_stored(st.modified) == dirmtime {
                    CacheResult::Valid(dirid, ())
                } else {
                    CacheResult::Invalid(dirid)
                }
            },
            None => CacheResult::Invalid(dirid),
        },
        None => CacheResult::Absent,
    }
}

/// The row of a file in the database.
#[derive(Clone, Copy, Debug, PartialEq, Eq)]
pub struct FileRow {
    /// The ID of the row.
    pub id: i64,
    /// The size of the file, or what stands for a directory or another kind of file.
    pub size: i64,
    /// The time of the last modification, in milliseconds.
    pub mtime: i64,
    /// The hash of the file, if it has been read.
    pub hash: Option<MD5Hash>,
}

/// Checks the status of a cached hash value of given file, given the row of the file in the
/// database, if there is one, and what the file system tells of the file now, if it tells
/// anything. The hash is valid as long as the file has neither another size nor another time
/// of modification.
pub fn check_cached_hash(row: Option<FileRow>, stat: Option<FileStat>) -> (res: CacheResult<MD5Hash>)
    ensures
        res == match row {
            Some(r) => match r.hash {
                Some(hash) => match stat {
                    Some(st) => if stored(st.size) == r.size && stored(st.modified) == r.mtime {
                        CacheResult::Valid(r.id, hash)
                    } else {
                        CacheResult::Invalid(r.id)
                    },
                    None => CacheResult::Invalid(r.id),
                },
                None => CacheResult::Invalid(r.id),
            },
            None => CacheResult::Absent,
        },
{
    match row {
        Some(r) => match r.hash {
            Some(hash) => match stat {
                Some(st) => {
                    if to_stored(st.size) == r.size && to_stored(st.modified) == r.mtime {
                        CacheResult::Valid(r.id, hash)
                    } else {
                        CacheResult::Invalid(r.id)
                    }
                },
                None => CacheResult::Invalid(r.id),
            },
            None => CacheResult::Invalid(r.id),
        },
        None => CacheResult::Absent,
    }
}

} // verus!

//! What a tracked run computes: the time in milliseconds, and the place of
//! its artifacts.

use vstd::prelude::*;

verus! {

/// The whole milliseconds in `secs` seconds and `nanos` nanoseconds.
pub fn millis_of(secs: u64, nanos: u32) -> (r: u128)
    ensures
        r == secs * 1000 + nanos / 1_000_000,
{
    (secs as u128) * 1000 + ((nanos / 1_000_000) as u128)
}

/// The scheme of an artifact address: the bytes of `mlflow-artifacts:`.
pub open spec fn scheme() -> Seq<u8> {
    seq![
        0x6du8, 0x6c, 0x66, 0x6c, 0x6f, 0x77, 0x2d, 0x61, 0x72, 0x74, 0x69, 0x66, 0x61, 0x63, 0x74,
        0x73, 0x3a,
    ]
}

/// The byte of the slash that parts the components of a path.
pub const SLASH: u8 = 0x2f;

/// The address starts with the scheme, and either ends there or goes on
/// with a slash.
pub open spec fn has_scheme(uri: Seq<u8>) -> bool {
    &&& uri.len() >= scheme().len()
    &&& uri.subrange(0, scheme().len() as int) == scheme()
    &&& uri.len() == scheme().len() || uri[scheme().len() as int] == SLASH
}

/// The byte of the dot that stands for the directory itself.
pub const DOT: u8 = 0x2e;

/// Where the first component from `from` on starts that is neither empty nor
/// a lone dot: slashes are passed over, and so is a dot that a slash or the
/// end follows.
pub open spec fn after_idle(s: Seq<u8>, from: int) -> int
    decreases s.len() - from,
{
    if 0 <= from < s.len() && s[from] == SLASH {
        after_idle(s, from + 1)
    } else if 0 <= from < s.len() && s[from] == DOT && (from + 1 == s.len() || s[from + 1]
        == SLASH) {
        after_idle(s, from + 1)
    } else {
        from
    }
}

/// Where the last component before `to` ends that is neither empty nor a
/// lone dot, none of it before `from`: slashes at the end are dropped, and so
/// is a dot at the end that follows a slash or stands alone.
pub open spec fn before_idle(s: Seq<u8>, from: int, to: int) -> int
    decreases to - from,
{
    if from < to <= s.len() && s[to - 1] == SLASH {
        before_idle(s, from, to - 1)
    } else if from < to <= s.len() && s[to - 1] == DOT && (to - 1 == from || s[to - 2] == SLASH) {
        before_idle(s, from, to - 1)
    } else {
        to
    }
}

/// Where the rest of an address starts, after its scheme.
pub open spec fn rest_start(uri: Seq<u8>) -> int {
    after_idle(uri, scheme().len() as int)
}

/// The address without its scheme: what follows the scheme, without the
/// empty components and the lone dots at its start and at its end.
pub open spec fn without_scheme(uri: Seq<u8>) -> Seq<u8> {
    uri.subrange(rest_start(uri), before_idle(uri, rest_start(uri), uri.len() as int))
}

/// The path `rest` under the directory `root`: the two with one slash
/// between them, unless the root is empty or ends with a slash already.
pub open spec fn joined(root: Seq<u8>, rest: Seq<u8>) -> Seq<u8> {
    if root.len() == 0 || root.last() == SLASH {
        root + rest
    } else {
        root + seq![SLASH] + rest
    }
}

/// Tells whether the address starts with the scheme, and either ends there
/// or goes on with a slash.
pub fn starts_with_scheme(uri: &[u8]) -> (r: bool)
    ensures
        r == has_scheme(uri@),
{
    let name: [u8; 17] = [
        0x6d, 0x6c, 0x66, 0x6c, 0x6f, 0x77, 0x2d, 0x61, 0x72, 0x74, 0x69, 0x66, 0x61, 0x63, 0x74,
        0x73, 0x3a,
    ];
    assert(name@ =~= scheme());
    if uri.len() < 17 {
        return false;
    }
    let mut i: usize = 0;
    while i < 17
        invariant
            0 <= i <= 17,
            uri@.len() >= 17,
            name@ == scheme(),
            forall|j: int| 0 <= j < i ==> uri@[j] == scheme()[j],
        decreases 17 - i,
    {
        if uri[i] != name[i] {
            assert(uri@.subrange(0, 17)[i as int] != scheme()[i as int]);
            return false;
        }
        i = i + 1;
    }
    assert(uri@.subrange(0, 17) =~= scheme());
    uri.len() == 17 || uri[17] == SLASH
}

/// The directory to which the artifacts of a run are saved: the run's
/// artifact address, without its scheme, under the root directory. An
/// address of another scheme has no such directory. The rest of the address
/// is taken as a path is: components that are empty or a lone dot count for
/// nothing at its start and at its end, and stay as they are in its middle.
pub fn artifact_base(uri: &[u8], root: &[u8]) -> (r: Option<Vec<u8>>)
    ensures
        match r {
            Some(p) => has_scheme(uri@) && p@ == joined(root@, without_scheme(uri@)),
            None => !has_scheme(uri@),
        },
{
    if !starts_with_scheme(uri) {
        return None;
    }
    let mut start: usize = 17;
    while start < uri.len() && (uri[start] == SLASH || (uri[start] == DOT && (start + 1
        == uri.len() || uri[start + 1] == SLASH)))
        invariant
            17 <= start <= uri@.len(),
            after_idle(uri@, 17) == after_idle(uri@, start as int),
        decreases uri@.len() - start,
    {
        start = start + 1;
    }
    let mut end: usize = uri.len();
    while end > start && (uri[end - 1] == SLASH || (uri[end - 1] == DOT && (end - 1 == start
        || uri[end - 2] == SLASH)))
        invariant
            start <= end <= uri@.len(),
            before_idle(uri@, start as int, uri@.len() as int) == before_idle(
                uri@,
                start as int,
                end as int,
            ),
        decreases end - start,
    {
        end = end - 1;
    }
    let mut out: Vec<u8> = Vec::new();
    let mut i: usize = 0;
    while i < root.len()
        invariant
            0 <= i <= root@.len(),
            out@ == root@.subrange(0, i as int),
        decreases root@.len() - i,
    {
        out.push(root[i]);
        assert(out@ =~= root@.subrange(0, i + 1));
        i = i + 1;
    }
    assert(out@ =~= root@);
    if root.len() > 0 && root[root.len() - 1] != SLASH {
        out.push(SLASH);
    }
    let ghost front: Seq<u8> = out@;
    let mut k: usize = start;
    while k < end
        invariant
            start <= k <= end <= uri@.len(),
            out@ == front + uri@.subrange(start as int, k as int),
        decreases end - k,
    {
        out.push(uri[k]);
        assert(out@ =~= front + uri@.subrange(start as int, k + 1));
        k = k + 1;
    }
    Some(out)
}

} // verus!

//! Building the remote maintenance command for one box.
//!
//! The command sets an environment variable to a per-box prefix and invokes
//! the maintenance tool. The prefix is the box name, except that a box named
//! `default` is disambiguated by the last path component of its working
//! directory.

use vstd::prelude::*;

verus! {

/// Path-separator byte.
pub const SLASH: u8 = 47;

/// The literal box name `default`.
pub open spec fn default_name() -> Seq<u8> {
    seq![100u8, 101u8, 102u8, 97u8, 117u8, 108u8, 116u8]
}

/// The bytes of `env TOPGRADE_PREFIX=`.
pub open spec fn env_prefix_part() -> Seq<u8> {
    seq![
        101u8, 110u8, 118u8, 32u8, 84u8, 79u8, 80u8, 71u8, 82u8, 65u8, 68u8, 69u8, 95u8, 80u8,
        82u8, 69u8, 70u8, 73u8, 88u8, 61u8,
    ]
}

/// The bytes of ` topgrade`.
pub open spec fn topgrade_part() -> Seq<u8> {
    seq![32u8, 116u8, 111u8, 112u8, 103u8, 114u8, 97u8, 100u8, 101u8]
}

/// The bytes of ` -y`, the non-interactive flag.
pub open spec fn yes_flag_part() -> Seq<u8> {
    seq![32u8, 45u8, 121u8]
}

/// `s` without its trailing path-separator bytes.
pub open spec fn strip_trailing_slashes(s: Seq<u8>) -> Seq<u8>
    decreases s.len(),
{
    if s.len() > 0 && s.last() == SLASH {
        strip_trailing_slashes(s.drop_last())
    } else {
        s
    }
}

/// The suffix of `s` after its last path-separator byte (all of `s` if there
/// is none).
pub open spec fn suffix_after_slash(s: Seq<u8>) -> Seq<u8>
    decreases s.len(),
{
    if s.len() == 0 {
        s
    } else if s.last() == SLASH {
        Seq::empty()
    } else {
        suffix_after_slash(s.drop_last()).push(s.last())
    }
}

/// The last path component of a directory path: trailing separators are
/// ignored, then everything after the last separator is taken.
pub open spec fn spec_dir_component(directory: Seq<u8>) -> Seq<u8> {
    suffix_after_slash(strip_trailing_slashes(directory))
}

/// The per-box prefix: the last path component of the directory for a box
/// named `default`, the box name itself otherwise.
pub open spec fn spec_box_prefix(name: Seq<u8>, directory: Seq<u8>) -> Seq<u8> {
    if name == default_name() {
        spec_dir_component(directory)
    } else {
        name
    }
}

/// The remote command: `env TOPGRADE_PREFIX=<prefix> topgrade`, with ` -y`
/// appended when the run is non-interactive.
pub open spec fn spec_remote_command(prefix: Seq<u8>, yes: bool) -> Seq<u8> {
    env_prefix_part() + prefix + topgrade_part() + (if yes {
        yes_flag_part()
    } else {
        Seq::empty()
    })
}

/// If everything from `end` on is a separator and the byte before `end` is
/// not, stripping trailing separators keeps exactly the first `end` bytes.
proof fn lemma_strip_trailing_is(s: Seq<u8>, end: int)
    requires
        0 <= end <= s.len(),
        forall|j: int| end <= j < s.len() ==> s[j] == SLASH,
        end > 0 ==> s[end - 1] != SLASH,
    ensures
        strip_trailing_slashes(s) == s.take(end),
    decreases s.len(),
{
    if end == s.len() {
        assert(s.take(end) =~= s);
    } else {
        assert(s.last() == SLASH);
        lemma_strip_trailing_is(s.drop_last(), end);
        assert(s.drop_last().take(end) =~= s.take(end));
    }
}

/// If `start..` holds no separator and the byte before `start` is one, the
/// suffix after the last separator is exactly `s` from `start` on.
proof fn lemma_suffix_after_slash_is(s: Seq<u8>, start: int)
    requires
        0 <= start <= s.len(),
        forall|j: int| start <= j < s.len() ==> s[j] != SLASH,
        start > 0 ==> s[start - 1] == SLASH,
    ensures
        suffix_after_slash(s) == s.skip(start),
    decreases s.len(),
{
    if s.len() == start {
        if start == 0 {
            assert(s.skip(0) =~= s);
        } else {
            assert(s.last() == SLASH);
            assert(s.skip(start) =~= Seq::<u8>::empty());
        }
    } else {
        assert(s.last() != SLASH);
        lemma_suffix_after_slash_is(s.drop_last(), start);
        assert(suffix_after_slash(s.drop_last()).push(s.last()) =~= s.skip(start));
    }
}

/// Byte-for-byte equality of two slices.
fn bytes_eq(a: &[u8], b: &[u8]) -> (r: bool)
    ensures
        r <==> a@ == b@,
{
    if a.len() != b.len() {
        return false;
    }
    let n: usize = a.len();
    let mut i: usize = 0;
    while i < n
        invariant
            n == a@.len() == b@.len(),
            0 <= i <= n,
            forall|j: int| 0 <= j < i ==> a@[j] == b@[j],
        decreases n - i,
    {
        if a[i] != b[i] {
            return false;
        }
        i = i + 1;
    }
    proof {
        assert(a@ =~= b@);
    }
    true
}

/// Appends `b` to `v`.
fn push_bytes(v: &mut Vec<u8>, b: &[u8])
    ensures
        final(v)@ == old(v)@ + b@,
{
    let n: usize = b.len();
    let mut i: usize = 0;
    while i < n
        invariant
            n == b@.len(),
            0 <= i <= n,
            v@ == old(v)@ + b@.take(i as int),
        decreases n - i,
    {
        v.push(b[i]);
        proof {
            assert(old(v)@ + b@.take(i + 1) =~= (old(v)@ + b@.take(i as int)).push(b@[i as int]));
        }
        i = i + 1;
    }
    proof {
        assert(b@.take(n as int) =~= b@);
    }
}

/// The last path component of `directory`: trailing separators ignored,
/// then everything after the last separator.
pub fn dir_component(directory: &[u8]) -> (r: Vec<u8>)
    ensures
        r@ == spec_dir_component(directory@),
{
    let n: usize = directory.len();
    let mut end: usize = n;
    while end > 0 && directory[end - 1] == SLASH
        invariant
            n == directory@.len(),
            0 <= end <= n,
            forall|j: int| end <= j < n ==> directory@[j] == SLASH,
        decreases end,
    {
        end = end - 1;
    }
    proof {
        lemma_strip_trailing_is(directory@, end as int);
    }
    let mut start: usize = end;
    while start > 0 && directory[start - 1] != SLASH
        invariant
            n == directory@.len(),
            0 <= start <= end <= n,
            forall|j: int| start <= j < end ==> directory@[j] != SLASH,
        decreases start,
    {
        start = start - 1;
    }
    let ghost t = directory@.take(end as int);
    proof {
        assert forall|j: int| start <= j < t.len() implies t[j] != SLASH by {
            assert(t[j] == directory@[j]);
        }
        assert(start > 0 ==> t[start - 1] == SLASH);
        lemma_suffix_after_slash_is(t, start as int);
        assert(t.skip(start as int) =~= directory@.subrange(start as int, end as int));
    }
    vstd::slice::slice_to_vec(vstd::slice::slice_subrange(directory, start, end))
}

/// The per-box prefix for the remote command.
pub fn box_prefix(name: &[u8], directory: &[u8]) -> (r: Vec<u8>)
    ensures
        r@ == spec_box_prefix(name@, directory@),
{
    let default_word: [u8; 7] = [100u8, 101u8, 102u8, 97u8, 117u8, 108u8, 116u8];
    proof {
        assert(default_word@ =~= default_name());
    }
    if bytes_eq(name, default_word.as_slice()) {
        dir_component(directory)
    } else {
        vstd::slice::slice_to_vec(name)
    }
}

/// Builds the remote command string for the given prefix.
pub fn build_remote_command(prefix: &[u8], yes: bool) -> (r: Vec<u8>)
    ensures
        r@ == spec_remote_command(prefix@, yes),
{
    let env_part: [u8; 20] = [
        101u8, 110u8, 118u8, 32u8, 84u8, 79u8, 80u8, 71u8, 82u8, 65u8, 68u8, 69u8, 95u8, 80u8,
        82u8, 69u8, 70u8, 73u8, 88u8, 61u8,
    ];
    let topgrade: [u8; 9] = [32u8, 116u8, 111u8, 112u8, 103u8, 114u8, 97u8, 100u8, 101u8];
    let yes_part: [u8; 3] = [32u8, 45u8, 121u8];
    proof {
        assert(env_part@ =~= env_prefix_part());
        assert(topgrade@ =~= topgrade_part());
        assert(yes_part@ =~= yes_flag_part());
    }
    let mut cmd: Vec<u8> = Vec::new();
    push_bytes(&mut cmd, env_part.as_slice());
    push_bytes(&mut cmd, prefix);
    push_bytes(&mut cmd, topgrade.as_slice());
    if yes {
        push_bytes(&mut cmd, yes_part.as_slice());
    }
    proof {
        if !yes {
            assert(cmd@ =~= spec_remote_command(prefix@, yes));
        }
    }
    cmd
}

} // verus!

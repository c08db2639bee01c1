//! Paths as byte strings.

use vstd::prelude::*;

use crate::text;

verus! {

/// The byte between the parts of a path.
pub const SLASH: u8 = 47;

/// The byte of a dot.
pub const DOT: u8 = 46;

/// Where the last slash of a path is; -1 if there is none.
pub open spec fn last_slash(path: Seq<u8>) -> int
    decreases path.len(),
{
    if path.len() == 0 {
        -1
    } else if path.last() == SLASH {
        path.len() - 1
    } else {
        last_slash(path.drop_last())
    }
}

/// Whether a part of a path stays where it is: nothing, or a single dot.
pub open spec fn stays(part: Seq<u8>) -> bool {
    part.len() == 0 || part == seq![DOT]
}

/// The last part of a path that does not stay where it is.
pub open spec fn last_part(path: Seq<u8>) -> Option<Seq<u8>>
    decreases path.len(),
{
    let at = last_slash(path);
    let part = path.skip(at + 1);
    if path.len() == 0 {
        None
    } else if !stays(part) {
        Some(part)
    } else if at < 0 || at >= path.len() {
        None
    } else {
        last_part(path.take(at))
    }
}

/// The file name of a path: its last part, unless that leads upwards.
pub open spec fn name_of(path: Seq<u8>) -> Option<Seq<u8>> {
    match last_part(path) {
        Some(part) => if part == seq![DOT, DOT] {
            None
        } else {
            Some(part)
        },
        None => None,
    }
}

/// Whether a path starts at the root.
pub open spec fn is_rooted(path: Seq<u8>) -> bool {
    path.len() > 0 && path[0] == SLASH
}

/// Whether a path starts with a dot for where it is.
pub open spec fn starts_here(path: Seq<u8>) -> bool {
    path.len() > 0 && path[0] == DOT && (path.len() == 1 || path[1] == SLASH)
}

/// The parts of a path that do not stay where they are.
pub open spec fn parts_of(path: Seq<u8>) -> Seq<Seq<u8>>
    decreases path.len(),
{
    let at = last_slash(path);
    let part = path.skip(at + 1);
    let front = if 0 <= at < path.len() {
        parts_of(path.take(at))
    } else {
        Seq::empty()
    };
    if stays(part) {
        front
    } else {
        front.push(part)
    }
}

/// Whether two paths are the same: they start at the same place and lead through the
/// same parts. Repeated slashes, slashes at the end and dots behind the start make
/// no difference.
pub open spec fn same_path(a: Seq<u8>, b: Seq<u8>) -> bool {
    &&& is_rooted(a) == is_rooted(b)
    &&& starts_here(a) == starts_here(b)
    &&& parts_of(a) == parts_of(b)
}

proof fn lemma_last_slash(path: Seq<u8>, at: int)
    requires
        -1 <= at < path.len(),
        at >= 0 ==> path[at] == SLASH,
        forall|i: int| at < i < path.len() ==> path[i] != SLASH,
    ensures
        last_slash(path) == at,
    decreases path.len(),
{
    if path.len() > 0 && at < path.len() - 1 {
        assert(path.last() != SLASH);
        assert forall|i: int| at < i < path.drop_last().len() implies path.drop_last()[i]
            != SLASH by {
            assert(path[i] != SLASH);
        }
        lemma_last_slash(path.drop_last(), at);
    }
}

/// A copy of some of a byte string.
pub fn copy_range(bytes: &[u8], from: usize, to: usize) -> (copy: Vec<u8>)
    requires
        from <= to <= bytes@.len(),
    ensures
        copy@ == bytes@.subrange(from as int, to as int),
{
    let mut copy: Vec<u8> = Vec::new();
    let mut i: usize = from;
    while i < to
        invariant
            from <= i <= to <= bytes@.len(),
            copy@ == bytes@.subrange(from as int, i as int),
        decreases to - i,
    {
        copy.push(bytes[i]);
        assert(copy@ =~= bytes@.subrange(from as int, i + 1));
        i = i + 1;
    }
    copy
}

/// The file name of a path.
pub fn file_name(path: &[u8]) -> (name: Option<Vec<u8>>)
    ensures
        match name {
            Some(name) => name_of(path@) == Some(name@),
            None => name_of(path@) is None,
        },
{
    let mut end: usize = path.len();
    proof {
        assert(path@.take(end as int) =~= path@);
    }
    while end > 0
        invariant
            end <= path@.len(),
            last_part(path@) == last_part(path@.take(end as int)),
        decreases end,
    {
        let ghost left = path@.take(end as int);
        let mut start: usize = end;
        while start > 0 && path[start - 1] != SLASH
            invariant
                start <= end <= path@.len(),
                forall|i: int| start <= i < end ==> path@[i] != SLASH,
            decreases start,
        {
            start = start - 1;
        }
        proof {
            lemma_last_slash(left, start - 1);
            assert(left.skip(start as int) =~= path@.subrange(start as int, end as int));
        }
        let ghost part = path@.subrange(start as int, end as int);
        if start == end || (end - start == 1 && path[start] == DOT) {
            proof {
                if end - start == 1 {
                    assert(part =~= seq![DOT]);
                }
                if start > 0 {
                    assert(left.take(start - 1) =~= path@.take(start - 1));
                }
            }
            if start == 0 {
                return None;
            }
            end = start - 1;
        } else {
            proof {
                if end - start == 1 {
                    assert(part[0] == path@[start as int]);
                    assert(part != seq![DOT]) by {
                        assert(seq![DOT][0] == DOT);
                    }
                }
                assert(last_part(path@) == Some(part));
            }
            if end - start == 2 && path[start] == DOT && path[start + 1] == DOT {
                assert(part =~= seq![DOT, DOT]);
                return None;
            }
            proof {
                if part == seq![DOT, DOT] {
                    assert(part[0] == DOT && part[1] == DOT);
                }
            }
            return Some(copy_range(path, start, end));
        }
    }
    None
}

/// The contents of some byte strings.
pub open spec fn contents(parts: Seq<Vec<u8>>) -> Seq<Seq<u8>> {
    parts.map_values(|part: Vec<u8>| part@)
}

/// The parts of a path that do not stay where they are.
pub fn parts(path: &[u8]) -> (parts: Vec<Vec<u8>>)
    ensures
        contents(parts@) == parts_of(path@),
{
    let mut parts: Vec<Vec<u8>> = Vec::new();
    let mut start: usize = 0;
    let mut end: usize = 0;
    let n: usize = path.len();
    assert(contents(parts@) =~= Seq::empty());
    loop
        invariant_except_break
            start <= end <= n == path@.len(),
            start > 0 ==> path@[start - 1] == SLASH,
            forall|i: int| start <= i < end ==> path@[i] != SLASH,
            contents(parts@) == if start > 0 {
                parts_of(path@.take(start - 1))
            } else {
                Seq::empty()
            },
        ensures
            contents(parts@) == parts_of(path@),
        decreases n - end,
    {
        if end < n && path[end] != SLASH {
            end = end + 1;
            continue;
        }
        let ghost left = path@.take(end as int);
        let ghost part = path@.subrange(start as int, end as int);
        let ghost before = parts@;
        proof {
            lemma_last_slash(left, start - 1);
            assert(left.skip(start as int) =~= part);
            if start > 0 {
                assert(left.take(start - 1) =~= path@.take(start - 1));
            }
        }
        if start == end || (end - start == 1 && path[start] == DOT) {
            proof {
                if start < end {
                    assert(part =~= seq![DOT]);
                }
            }
        } else {
            let next = copy_range(path, start, end);
            parts.push(next);
            proof {
                assert(contents(parts@) =~= contents(before).push(part));
                if part == seq![DOT] {
                    assert(part[0] == DOT);
                }
            }
        }
        assert(contents(parts@) == parts_of(left));
        if end == n {
            assert(left =~= path@);
            break;
        }
        end = end + 1;
        start = end;
    }
    parts
}

/// Whether two paths are the same.
pub fn is_same(a: &[u8], b: &[u8]) -> (same: bool)
    ensures
        same == same_path(a@, b@),
{
    let rooted_a = a.len() > 0 && a[0] == SLASH;
    let rooted_b = b.len() > 0 && b[0] == SLASH;
    let here_a = a.len() > 0 && a[0] == DOT && (a.len() == 1 || a[1] == SLASH);
    let here_b = b.len() > 0 && b[0] == DOT && (b.len() == 1 || b[1] == SLASH);
    if rooted_a != rooted_b || here_a != here_b {
        return false;
    }
    let left = parts(a);
    let right = parts(b);
    if left.len() != right.len() {
        assert(contents(left@).len() != contents(right@).len());
        return false;
    }
    let mut i: usize = 0;
    while i < left.len()
        invariant
            i <= left@.len() == right@.len(),
            contents(left@) == parts_of(a@),
            contents(right@) == parts_of(b@),
            forall|k: int| 0 <= k < i ==> contents(left@)[k] == contents(right@)[k],
        decreases left@.len() - i,
    {
        if !text::bytes_eq(left[i].as_slice(), right[i].as_slice()) {
            assert(contents(left@)[i as int] != contents(right@)[i as int]);
            return false;
        }
        i = i + 1;
    }
    assert(contents(left@) =~= contents(right@));
    true
}

proof fn lemma_last_slash_is(path: Seq<u8>)
    ensures
        -1 <= last_slash(path) < path.len(),
        last_slash(path) >= 0 ==> path[last_slash(path)] == SLASH,
        forall|i: int| last_slash(path) < i < path.len() ==> path[i] != SLASH,
    decreases path.len(),
{
    if path.len() > 0 && path.last() != SLASH {
        lemma_last_slash_is(path.drop_last());
        assert forall|i: int| last_slash(path) < i < path.len() implies path[i] != SLASH by {
            if i < path.len() - 1 {
                assert(path.drop_last()[i] == path[i]);
            }
        }
    }
}

/// A path that goes on behind another, with a slash in between, leads through the parts of
/// the first and then of the second.
pub proof fn law_paths_lead_on(first: Seq<u8>, second: Seq<u8>)
    ensures
        parts_of(first + seq![47u8] + second) == parts_of(first) + parts_of(second),
    decreases second.len(),
{
    let all = first + seq![SLASH] + second;
    let n = first.len() as int;
    lemma_last_slash_is(second);
    let k = last_slash(second);
    if k >= 0 {
        let at = n + 1 + k;
        assert(all[at] == SLASH);
        assert forall|i: int| at < i < all.len() implies all[i] != SLASH by {
            assert(all[i] == second[i - n - 1]);
        }
        lemma_last_slash(all, at);
        assert(all.take(at) =~= first + seq![SLASH] + second.take(k));
        assert(all.skip(at + 1) =~= second.skip(k + 1));
        law_paths_lead_on(first, second.take(k));
        assert(parts_of(all) =~= parts_of(first) + parts_of(second));
    } else {
        assert forall|i: int| n < i < all.len() implies all[i] != SLASH by {
            assert(all[i] == second[i - n - 1]);
        }
        lemma_last_slash(all, n);
        assert(all.take(n) =~= first);
        assert(all.skip(n + 1) =~= second);
        assert(second.skip(0) =~= second);
        assert(parts_of(all) =~= parts_of(first) + parts_of(second));
    }
}

proof fn lemma_one_part(part: Seq<u8>)
    requires
        !part.contains(SLASH),
    ensures
        last_slash(part) == -1,
        parts_of(part) == if stays(part) {
            Seq::empty()
        } else {
            seq![part]
        },
{
    assert forall|i: int| -1 < i < part.len() implies part[i] != SLASH by {
        assert(part.contains(part[i]));
    }
    if part.len() > 0 {
        lemma_last_slash(part, -1);
    }
    assert(part.skip(0) =~= part);
    assert(Seq::<Seq<u8>>::empty().push(part) =~= seq![part]);
}

/// Slashes at the end, repeated slashes and single dots in between make no difference to
/// where a path leads; how it starts, and the names of its parts, do. Being the same is the
/// same from both sides, and carries over.
pub proof fn law_same_paths(a: Seq<u8>, b: Seq<u8>, c: Seq<u8>)
    requires
        a.len() > 1,
    ensures
        same_path(a, a),
        same_path(a, b) == same_path(b, a),
        same_path(a, b) && same_path(b, c) ==> same_path(a, c),
        same_path(a + seq![47u8], a),
        same_path(a + seq![47u8] + (seq![47u8] + b), a + seq![47u8] + b),
        same_path(a + seq![47u8] + (seq![46u8] + seq![47u8] + b), a + seq![47u8] + b),
        same_path(a, b) ==> parts_of(a) == parts_of(b) && is_rooted(a) == is_rooted(b),
{
    let none = Seq::<u8>::empty();
    lemma_one_part(none);
    lemma_one_part(seq![DOT]);
    law_paths_lead_on(a, none);
    assert(a + seq![SLASH] + none =~= a + seq![SLASH]);
    assert(parts_of(a) + Seq::<Seq<u8>>::empty() =~= parts_of(a));
    law_paths_lead_on(a, seq![SLASH] + b);
    law_paths_lead_on(none, b);
    assert(none + seq![SLASH] + b =~= seq![SLASH] + b);
    assert(Seq::<Seq<u8>>::empty() + parts_of(b) =~= parts_of(b));
    law_paths_lead_on(a, b);
    law_paths_lead_on(a, seq![DOT] + seq![SLASH] + b);
    law_paths_lead_on(seq![DOT], b);
}

/// The name of a file in a folder is its own name, whatever the folder is and with any slash
/// behind it; the root, and what leads upwards, have none.
pub proof fn law_files_are_named_by_their_last_part(folder: Seq<u8>, name: Seq<u8>)
    requires
        name.len() > 0,
        !name.contains(47),
        name != seq![46u8],
    ensures
        name != seq![46u8, 46u8] ==> name_of(folder + seq![47u8] + name) == Some(name)
            && name_of(folder + seq![47u8] + name + seq![47u8]) == Some(name) && name_of(name)
            == Some(name),
        name == seq![46u8, 46u8] ==> name_of(folder + seq![47u8] + name) is None,
        name_of(seq![47u8]) is None,
        name_of(Seq::empty()) is None,
{
    let path = folder + seq![SLASH] + name;
    let n = folder.len() as int;
    assert forall|i: int| n < i < path.len() implies path[i] != SLASH by {
        assert(name.contains(name[i - n - 1]));
    }
    lemma_last_slash(path, n);
    assert(path.skip(n + 1) =~= name);
    let more = path + seq![SLASH];
    lemma_last_slash(more, path.len() as int);
    assert(more.take(path.len() as int) =~= path);
    assert(more.skip(path.len() as int + 1) =~= Seq::empty());
    lemma_one_part(name);
    assert(name.skip(0) =~= name);
    let root = seq![SLASH];
    lemma_last_slash(root, 0);
    assert(root.skip(1) =~= Seq::empty());
    assert(root.take(0) =~= Seq::empty());
    assert(last_part(Seq::<u8>::empty()) is None);
}

} // verus!

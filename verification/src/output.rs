//! What a frame sink works on: the bytes of a frame and the container that a
//! file name asks for.

use vstd::prelude::*;

verus! {

/// The bytes of a frame without its alpha channel: of every four bytes of
/// `rgba` the first three.
pub open spec fn without_alpha(rgba: Seq<u8>) -> Seq<u8> {
    Seq::new((rgba.len() / 4 * 3) as nat, |i: int| rgba[i / 3 * 4 + i % 3])
}

/// Drops the alpha channel of a frame of whole pixels, four bytes each.
pub fn rgb_from_rgba(frame: &[u8]) -> (rgb: Vec<u8>)
    requires
        frame@.len() % 4 == 0,
    ensures
        rgb@ == without_alpha(frame@),
{
    let n: usize = frame.len();
    let mut rgb: Vec<u8> = Vec::new();
    let mut at: usize = 0;
    while at < n
        invariant
            at <= n,
            n == frame@.len(),
            n % 4 == 0,
            at % 4 == 0,
            rgb@.len() == at / 4 * 3,
            forall|i: int| 0 <= i < rgb@.len() ==> rgb@[i] == frame@[i / 3 * 4 + i % 3],
        decreases n - at,
    {
        rgb.push(frame[at]);
        rgb.push(frame[at + 1]);
        rgb.push(frame[at + 2]);
        at += 4;
    }
    assert(rgb@ =~= without_alpha(frame@));
    rgb
}

/// A container format that an export can write.
#[derive(Clone, Copy, Debug, PartialEq, Eq, Structural)]
pub enum Container {
    Mp4,
}

/// The extension of a file name: what follows its last `.`, or all of it if
/// it holds none.
pub open spec fn extension(name: Seq<char>) -> Seq<char>
    decreases name.len(),
{
    if name.len() == 0 || name.last() == '.' {
        Seq::empty()
    } else {
        extension(name.drop_last()).push(name.last())
    }
}

/// The container that an extension stands for.
pub open spec fn container_for(extension: Seq<char>) -> Option<Container> {
    if extension == seq!['m', 'p', '4'] {
        Some(Container::Mp4)
    } else {
        None
    }
}

/// Behind the last `.` of a name, or in all of a name without one, stands its
/// extension.
proof fn lemma_extension_is_suffix(name: Seq<char>, start: int)
    requires
        0 <= start <= name.len(),
        start == 0 || name[start - 1] == '.',
        forall|j: int| start <= j < name.len() ==> name[j] != '.',
    ensures
        extension(name) == name.subrange(start, name.len() as int),
    decreases name.len() - start,
{
    let n = name.len() as int;
    if start < n {
        let front = name.drop_last();
        lemma_extension_is_suffix(front, start);
        assert(front.subrange(start, n - 1).push(name[n - 1]) =~= name.subrange(start, n));
    } else {
        assert(name.subrange(start, n) =~= Seq::<char>::empty());
    }
}

/// The extension of a file name.
pub fn extension_of(name: &str) -> (ext: &str)
    ensures
        ext@ == extension(name@),
        ext@.len() <= name@.len(),
        ext@ == name@.subrange(name@.len() - ext@.len(), name@.len() as int),
        forall|j: int| 0 <= j < ext@.len() ==> ext@[j] != '.',
        ext@.len() == name@.len() || name@[name@.len() - ext@.len() - 1] == '.',
{
    let n: usize = name.unicode_len();
    let mut start: usize = n;
    while start > 0 && name.get_char(start - 1) != '.'
        invariant
            start <= n,
            n == name@.len(),
            forall|j: int| start <= j < n ==> name@[j] != '.',
        decreases start,
    {
        start -= 1;
    }
    proof {
        lemma_extension_is_suffix(name@, start as int);
    }
    name.substring_char(start, n)
}

/// The name ends in `mp4`, and nothing or a `.` stands before that.
pub open spec fn ends_in_mp4(name: Seq<char>) -> bool {
    let n = name.len() as int;
    &&& n >= 3
    &&& name[n - 3] == 'm'
    &&& name[n - 2] == 'p'
    &&& name[n - 1] == '4'
    &&& (n == 3 || name[n - 4] == '.')
}

/// The container that a file name asks for by its extension, if any.
pub fn container_of(name: &str) -> (container: Option<Container>)
    ensures
        container == container_for(extension(name@)),
        container == if ends_in_mp4(name@) {
            Some(Container::Mp4)
        } else {
            None
        },
{
    let ext = extension_of(name);
    let ghost want = seq!['m', 'p', '4'];
    proof {
        assert(want.len() == 3 && want[0] == 'm' && want[1] == 'p' && want[2] == '4');
        let n = name@.len() as int;
        if ext@.len() == 3 {
            assert(ext@[0] == name@[n - 3] && ext@[1] == name@[n - 2] && ext@[2] == name@[n - 1]);
        }
        if ends_in_mp4(name@) {
            if ext@.len() > 3 {
                assert(ext@[ext@.len() - 4] == name@[n - 4]);
            }
            if ext@.len() < 3 {
                assert(name@[n - 1 - ext@.len()] == '.');
            }
        }
    }
    if ext.unicode_len() == 3 && ext.get_char(0) == 'm' && ext.get_char(1) == 'p' && ext.get_char(2)
        == '4' {
        assert(ext@ =~= want);
        Some(Container::Mp4)
    } else {
        None
    }
}

} // verus!

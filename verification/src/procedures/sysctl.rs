//! Kernel parameters, which are set by writing to files under `/proc/sys`.

use crate::call::{Call, CallView};
use crate::path::{joined, FsPath, SEPARATOR};
use vstd::prelude::*;
use vstd::utf8::{
    encode_scalar, encode_utf8, has_width_1_encoding, is_ascii_chars_encode_utf8,
};

verus! {

/// The name of a parameter with its dots replaced by slashes.
pub open spec fn slashed(name: Seq<char>) -> Seq<char> {
    name.map_values(
        |c: char|
            if c == '.' {
                '/'
            } else {
                c
            },
    )
}

/// The file that holds a parameter.
pub open spec fn parameter_path(name: Seq<char>) -> Seq<u8> {
    joined(encode_utf8("/proc/sys"@), encode_utf8(slashed(name)))
}

/// The value of a parameter is written to its file.
pub open spec fn spec_call(name: Seq<char>, value: Seq<char>) -> CallView {
    CallView::WriteFile { path: parameter_path(name), contents: encode_utf8(value) }
}

spec fn slashed_bytes(bytes: Seq<u8>) -> Seq<u8> {
    bytes.map_values(
        |b: u8|
            if b == 0x2e {
                0x2f
            } else {
                b
            },
    )
}

/// A dot is the only character whose encoding holds the byte of a dot.
proof fn lemma_slashed_scalar(c: char)
    ensures
        slashed_bytes(encode_scalar(c as u32)) == encode_scalar(
            (if c == '.' {
                '/'
            } else {
                c
            }) as u32,
        ),
{
    let s = c as u32;
    assert((0x2eu32 & 0x7f) as u8 == 0x2e && (0x2fu32 & 0x7f) as u8 == 0x2f) by (bit_vector);
    assert(has_width_1_encoding(s) ==> (s & 0x7f) as u8 == s) by (bit_vector);
    assert(0xC0u8 | ((s >> 6) & 0x1F) as u8 != 0x2e) by (bit_vector);
    assert(0xE0u8 | ((s >> 12) & 0x0F) as u8 != 0x2e) by (bit_vector);
    assert(0xF0u8 | ((s >> 18) & 0x7) as u8 != 0x2e) by (bit_vector);
    assert(0x80u8 | (s & 0x3F) as u8 != 0x2e) by (bit_vector);
    assert(0x80u8 | ((s >> 6) & 0x3F) as u8 != 0x2e) by (bit_vector);
    assert(0x80u8 | ((s >> 12) & 0x3F) as u8 != 0x2e) by (bit_vector);
    let t = (if c == '.' {
        '/'
    } else {
        c
    }) as u32;
    if c == '.' {
        assert(slashed_bytes(encode_scalar(s)) =~= encode_scalar(t));
    } else {
        assert(slashed_bytes(encode_scalar(s)) =~= encode_scalar(s));
    }
}

/// Dots become slashes in an encoded text as they do in the text itself.
proof fn lemma_slashed(name: Seq<char>)
    ensures
        slashed_bytes(encode_utf8(name)) == encode_utf8(slashed(name)),
    decreases name.len(),
{
    if name.len() == 0 {
        assert(slashed_bytes(encode_utf8(name)) =~= encode_utf8(slashed(name)));
    } else {
        lemma_slashed_scalar(name[0]);
        lemma_slashed(name.drop_first());
        assert(slashed(name).drop_first() =~= slashed(name.drop_first()));
        assert(slashed_bytes(encode_utf8(name)) =~= slashed_bytes(encode_scalar(name[0] as u32))
            + slashed_bytes(encode_utf8(name.drop_first())));
    }
}

/// A slash is the only character whose encoding starts with the byte of a slash.
proof fn lemma_encoded_slash(c: char)
    requires
        c != '/',
    ensures
        encode_scalar(c as u32).len() > 0,
        encode_scalar(c as u32)[0] != SEPARATOR,
{
    let s = c as u32;
    assert(has_width_1_encoding(s) ==> (s & 0x7f) as u8 == s) by (bit_vector);
    assert(0xC0u8 | ((s >> 6) & 0x1F) as u8 != 0x2f) by (bit_vector);
    assert(0xE0u8 | ((s >> 12) & 0x0F) as u8 != 0x2f) by (bit_vector);
    assert(0xF0u8 | ((s >> 18) & 0x7) as u8 != 0x2f) by (bit_vector);
}

/// The file of a parameter is under `/proc/sys`, unless the name of the parameter starts
/// with a dot or a slash.
pub proof fn law_parameter_is_under_proc_sys(name: Seq<char>)
    requires
        name.len() > 0 ==> name[0] != '.' && name[0] != '/',
    ensures
        parameter_path(name) == encode_utf8("/proc/sys/"@) + encode_utf8(slashed(name)),
{
    let path = encode_utf8(slashed(name));
    if name.len() > 0 {
        assert(slashed(name)[0] == name[0]);
        lemma_encoded_slash(name[0]);
        assert(path[0] == encode_scalar(name[0] as u32)[0]);
    }
    reveal_strlit("/proc/sys");
    reveal_strlit("/proc/sys/");
    let base = "/proc/sys"@;
    let dir = "/proc/sys/"@;
    is_ascii_chars_encode_utf8(base);
    is_ascii_chars_encode_utf8(dir);
    assert(base.last() == 's');
    assert(encode_utf8(base)[8] == base[8] as u8);
    assert forall|i: int| 0 <= i < 9 implies encode_utf8(base)[i] == encode_utf8(dir)[i] by {
        assert(base[i] == dir[i]);
    }
    assert(dir[9] == '/');
    assert(encode_utf8(base).push(SEPARATOR) =~= encode_utf8(dir));
}

/// The path of a parameter whose name starts with a dot or a slash starts at the root.
pub proof fn lemma_absolute_parameter(name: Seq<char>)
    requires
        name.len() > 0,
        name[0] == '.' || name[0] == '/',
    ensures
        parameter_path(name) == encode_utf8(slashed(name)),
{
    let path = encode_utf8(slashed(name));
    assert(slashed(name)[0] == '/');
    assert((0x2fu32 & 0x7f) as u8 == 0x2f) by (bit_vector);
    assert(path[0] == encode_scalar('/' as u32)[0]);
    assert(path[0] == SEPARATOR);
}

/// The path of a parameter has no dot in it, and so no component that leads to a directory
/// above.
pub proof fn law_parameter_path_has_no_dots(name: Seq<char>)
    ensures
        !parameter_path(name).contains(0x2eu8),
{
    let path = encode_utf8(slashed(name));
    lemma_slashed(name);
    assert forall|i: int| 0 <= i < path.len() implies #[trigger] path[i] != 0x2e by {
        assert(path[i] == slashed_bytes(encode_utf8(name))[i]);
    }
    reveal_strlit("/proc/sys");
    let base = "/proc/sys"@;
    is_ascii_chars_encode_utf8(base);
    assert forall|i: int| 0 <= i < 9 implies #[trigger] encode_utf8(base)[i] != 0x2e by {
        assert(base[i] as u8 == encode_utf8(base)[i]);
    }
}

/// A name whose dots have been replaced already gives the same path.
pub proof fn law_slashes_may_stand_for_dots(name: Seq<char>)
    ensures
        parameter_path(slashed(name)) == parameter_path(name),
{
    assert(slashed(slashed(name)) =~= slashed(name));
}

/// The name of a parameter as a relative path.
fn relative_path(name: &String) -> (path: FsPath)
    ensures
        path@ == encode_utf8(slashed(name@)),
{
    let mut bytes: Vec<u8> = FsPath::new(name.as_str()).bytes;
    let ghost before = bytes@;
    let mut i: usize = 0;
    while i < bytes.len()
        invariant
            i <= bytes@.len(),
            bytes@.len() == before.len(),
            bytes@ == slashed_bytes(before.take(i as int)) + before.skip(i as int),
        decreases bytes@.len() - i,
    {
        assert(bytes@[i as int] == before[i as int]);
        if bytes[i] == 0x2e {
            bytes.set(i, 0x2f);
        }
        assert(bytes@ =~= slashed_bytes(before.take(i + 1)) + before.skip(i + 1));
        i += 1;
    }
    assert(bytes@ =~= slashed_bytes(before));
    proof {
        lemma_slashed(name@);
    }
    FsPath { bytes }
}

/// The call that writes a parameter.
pub fn call(name: &String, value: &String) -> (call: Call)
    ensures
        call@ == spec_call(name@, value@),
{
    let sys = FsPath::new("/proc/sys");
    let path = sys.join(&relative_path(name));
    let contents: Vec<u8> = value.as_str().as_bytes_vec();
    Call::WriteFile { path, contents }
}

} // verus!

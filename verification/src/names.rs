//! Names and paths as byte strings: the last segment of a path, the names
//! that a reservation tries, and joining a directory and a name.

use vstd::prelude::*;
use vstd::string::*;
use vstd::slice::*;
use vstd::utf8::encode_utf8;

verus! {

/// The byte that separates the segments of a path.
pub open spec fn separator() -> u8 {
    0x2f
}

/// The byte `.`.
pub open spec fn dot() -> u8 {
    0x2e
}

/// The ending of a metadata file's name.
pub open spec fn info_extension() -> Seq<u8> {
    encode_utf8(".trashinfo"@)
}

/// Where the last segment of `s` begins: behind its last separator, or at 0
/// where it has none. For a string that ends in a separator this is its
/// length, the last segment being empty.
pub open spec fn segment_start(s: Seq<u8>) -> int
    decreases s.len(),
{
    if s.len() == 0 || s.last() == separator() {
        s.len() as int
    } else {
        segment_start(s.drop_last())
    }
}

/// The last segment of a path that names something: trailing separators and
/// trailing `.` segments are passed over, and a path that then ends in `..`,
/// or in nothing, has no name.
pub open spec fn file_name_of(path: Seq<u8>) -> Option<Seq<u8>>
    decreases path.len(),
{
    if path.len() == 0 {
        None
    } else if path.last() == separator() {
        file_name_of(path.drop_last())
    } else {
        let start = segment_start(path);
        let segment = path.skip(start);
        if segment == seq![dot()] {
            proof {
                lemma_segment_start(path);
            }
            file_name_of(path.take(start))
        } else if segment == seq![dot(), dot()] {
            None
        } else {
            Some(segment)
        }
    }
}

/// True for a name that can be one segment of a path: not empty, without a
/// separator.
pub open spec fn is_segment(name: Seq<u8>) -> bool {
    name.len() > 0 && forall|i: int| 0 <= i < name.len() ==> #[trigger] name[i] != separator()
}

/// True for a name that a file can have: a segment other than `.` and `..`.
pub open spec fn is_file_name(name: Seq<u8>) -> bool {
    is_segment(name) && name != seq![dot()] && name != seq![dot(), dot()]
}

/// The decimal digits of a number.
pub open spec fn decimal(n: nat) -> Seq<u8>
    decreases n,
{
    if n < 10 {
        seq![(0x30 + n) as u8]
    } else {
        decimal(n / 10).push((0x30 + n % 10) as u8)
    }
}

/// The name under which the item lies in the trash at the given attempt: the
/// base name at the first, the base name, a dot and the attempt's number from
/// the second on.
pub open spec fn internal_name(base: Seq<u8>, attempt: nat) -> Seq<u8> {
    if attempt <= 1 {
        base
    } else {
        base + seq![dot()] + decimal(attempt)
    }
}

/// The name of the metadata file at the given attempt.
pub open spec fn info_name(base: Seq<u8>, attempt: nat) -> Seq<u8> {
    internal_name(base, attempt) + info_extension()
}

/// A directory and a name as one path. An absolute name stands alone; a
/// separator is put between the two unless the directory is empty or ends in
/// one.
pub open spec fn joined(dir: Seq<u8>, name: Seq<u8>) -> Seq<u8> {
    if name.len() > 0 && name[0] == separator() {
        name
    } else if dir.len() == 0 || dir.last() == separator() {
        dir + name
    } else {
        dir + seq![separator()] + name
    }
}

/// The last segment begins inside the string, holds no separator, and has
/// one in front of it unless it begins the string.
pub proof fn lemma_segment_start(s: Seq<u8>)
    ensures
        0 <= segment_start(s) <= s.len(),
        s.len() > 0 && s.last() != separator() ==> segment_start(s) < s.len(),
        forall|i: int| segment_start(s) <= i < s.len() ==> #[trigger] s[i] != separator(),
        segment_start(s) > 0 ==> s[segment_start(s) - 1] == separator(),
    decreases s.len(),
{
    if s.len() > 0 && s.last() != separator() {
        let rest = s.drop_last();
        lemma_segment_start(rest);
        assert forall|i: int| segment_start(s) <= i < s.len() implies #[trigger] s[i]
            != separator() by {
            if i < rest.len() {
                assert(s[i] == rest[i]);
            }
        }
        if segment_start(s) > 0 {
            assert(s[segment_start(s) - 1] == rest[segment_start(rest) - 1]);
        }
    }
}

/// The name that a path has is a name that a file can have.
pub proof fn lemma_file_name_of_path(path: Seq<u8>)
    ensures
        file_name_of(path) matches Some(name) ==> is_file_name(name),
    decreases path.len(),
{
    if path.len() > 0 {
        if path.last() == separator() {
            lemma_file_name_of_path(path.drop_last());
        } else {
            lemma_segment_start(path);
            let start = segment_start(path);
            if path.skip(start) == seq![dot()] {
                lemma_file_name_of_path(path.take(start));
            }
        }
    }
}

/// The digits of a number are digits, and at least one.
pub proof fn lemma_decimal_digits(n: nat)
    ensures
        decimal(n).len() >= 1,
        forall|i: int| 0 <= i < decimal(n).len() ==> 0x30 <= #[trigger] decimal(n)[i] <= 0x39,
        n >= 1 ==> decimal(n)[0] != 0x30,
    decreases n,
{
    if n >= 10 {
        lemma_decimal_digits(n / 10);
    }
}

/// Two numbers with the same digits are the same number.
pub proof fn lemma_decimal_injective(n: nat, m: nat)
    requires
        decimal(n) == decimal(m),
    ensures
        n == m,
    decreases n,
{
    lemma_decimal_digits(n);
    lemma_decimal_digits(m);
    if n < 10 {
        if m >= 10 {
            lemma_decimal_digits(m / 10);
            assert(decimal(m).len() >= 2);
        } else {
            assert(decimal(n)[0] == (0x30 + n) as u8);
            assert(decimal(m)[0] == (0x30 + m) as u8);
        }
    } else {
        if m < 10 {
            lemma_decimal_digits(n / 10);
            assert(decimal(n).len() >= 2);
        } else {
            let a = decimal(n / 10);
            let b = decimal(m / 10);
            assert(decimal(n).last() == (0x30 + n % 10) as u8);
            assert(decimal(m).last() == (0x30 + m % 10) as u8);
            assert(a =~= decimal(n).drop_last());
            assert(b =~= decimal(m).drop_last());
            lemma_decimal_injective(n / 10, m / 10);
            assert(n % 10 == m % 10);
        }
    }
}

/// Different attempts give different names, in the trash and for the
/// metadata file.
pub proof fn lemma_names_differ(base: Seq<u8>, first: nat, second: nat)
    requires
        1 <= first,
        1 <= second,
        first != second,
    ensures
        internal_name(base, first) != internal_name(base, second),
        info_name(base, first) != info_name(base, second),
{
    let a = internal_name(base, first);
    let b = internal_name(base, second);
    lemma_decimal_digits(first);
    lemma_decimal_digits(second);
    if a == b {
        if first == 1 {
            assert(b.len() > base.len());
        } else if second == 1 {
            assert(a.len() > base.len());
        } else {
            assert(decimal(first) =~= a.skip(base.len() as int + 1));
            assert(decimal(second) =~= b.skip(base.len() as int + 1));
            lemma_decimal_injective(first, second);
        }
    }
    if info_name(base, first) == info_name(base, second) {
        let x = info_name(base, first);
        let y = info_name(base, second);
        assert(x.len() == a.len() + info_extension().len());
        assert(y.len() == b.len() + info_extension().len());
        assert(a =~= x.take(a.len() as int));
        assert(b =~= y.take(b.len() as int));
    }
}

/// The name in the trash is a name that a file can have where the base name
/// is one: never empty, never with a separator.
pub proof fn lemma_internal_name_is_file_name(base: Seq<u8>, attempt: nat)
    requires
        is_file_name(base),
    ensures
        is_file_name(internal_name(base, attempt)),
        is_file_name(info_name(base, attempt)),
{
    lemma_decimal_digits(attempt);
    lemma_info_extension();
    let name = internal_name(base, attempt);
    if attempt > 1 {
        assert forall|i: int| 0 <= i < name.len() implies #[trigger] name[i] != separator() by {
            if i < base.len() {
                assert(name[i] == base[i]);
            } else if i > base.len() {
                assert(name[i] == decimal(attempt)[i - base.len() - 1]);
            }
        }
        assert(name.len() >= 3);
    }
    let info = info_name(base, attempt);
    assert forall|i: int| 0 <= i < info.len() implies #[trigger] info[i] != separator() by {
        if i < name.len() {
            assert(info[i] == name[i]);
        } else {
            assert(info[i] == info_extension()[i - name.len()]);
        }
    }
    assert(info.len() >= 11);
}

/// The ending of a metadata file's name is ten bytes long and holds no
/// separator.
pub proof fn lemma_info_extension()
    ensures
        info_extension().len() == 10,
        forall|i: int| 0 <= i < 10 ==> #[trigger] info_extension()[i] != separator(),
{
    reveal_strlit(".trashinfo");
    let text = ".trashinfo"@;
    assert(vstd::utf8::is_ascii_chars(text));
    vstd::utf8::is_ascii_chars_encode_utf8(text);
    assert forall|i: int| 0 <= i < 10 implies #[trigger] info_extension()[i] != separator() by {
        assert(text[i] as u8 == info_extension()[i]);
    }
}

/// Under one directory, different names give different paths.
pub proof fn lemma_joined_differ(dir: Seq<u8>, first: Seq<u8>, second: Seq<u8>)
    requires
        is_segment(first),
        is_segment(second),
        first != second,
    ensures
        joined(dir, first) != joined(dir, second),
{
    let a = joined(dir, first);
    let b = joined(dir, second);
    assert(first[0] != separator());
    assert(second[0] != separator());
    if a == b {
        let prefix = a.len() - first.len();
        assert(first =~= a.skip(prefix));
        assert(second =~= b.skip(prefix));
    }
}

/// Tells whether a name is one that a file can have.
pub fn check_file_name(name: &[u8]) -> (r: bool)
    ensures
        r == is_file_name(name@),
{
    if name.len() == 0 {
        return false;
    }
    if name.len() == 1 && name[0] == 0x2e {
        assert(name@ =~= seq![dot()]);
        return false;
    }
    if name.len() == 2 && name[0] == 0x2e && name[1] == 0x2e {
        assert(name@ =~= seq![dot(), dot()]);
        return false;
    }
    let mut i: usize = 0;
    while i < name.len()
        invariant
            i <= name.len(),
            forall|j: int| 0 <= j < i ==> #[trigger] name@[j] != separator(),
        decreases name.len() - i,
    {
        if name[i] == 0x2f {
            return false;
        }
        i += 1;
    }
    proof {
        if name@ == seq![dot()] {
            assert(name@.len() == 1 && name@[0] == dot());
        }
        if name@ == seq![dot(), dot()] {
            assert(name@.len() == 2 && name@[0] == dot() && name@[1] == dot());
        }
    }
    true
}

/// The last segment of a path that names something.
///
/// `None` is returned for the empty path, for one made of separators and
/// `.` segments alone, and for one that ends in `..`.
pub fn file_name(path: &[u8]) -> (r: Option<Vec<u8>>)
    ensures
        match r {
            Some(name) => file_name_of(path@) == Some(name@),
            None => file_name_of(path@) is None,
        },
{
    let mut end: usize = path.len();
    assert(path@.take(end as int) =~= path@);
    while end > 0
        invariant
            end <= path.len(),
            file_name_of(path@) == file_name_of(path@.take(end as int)),
        decreases end,
    {
        let ghost prefix = path@.take(end as int);
        if path[end - 1] == 0x2f {
            assert(prefix.drop_last() =~= path@.take(end - 1));
            end = end - 1;
        } else {
            let mut start: usize = end;
            while start > 0 && path[start - 1] != 0x2f
                invariant
                    start <= end <= path.len(),
                    prefix == path@.take(end as int),
                    segment_start(prefix) == segment_start(path@.take(start as int)),
                decreases start,
            {
                assert(path@.take(start as int).drop_last() =~= path@.take(start - 1));
                start = start - 1;
            }
            proof {
                lemma_segment_start(prefix);
                assert(segment_start(prefix) == start);
                assert(prefix.skip(start as int) =~= path@.subrange(start as int, end as int));
                assert(prefix.take(start as int) =~= path@.take(start as int));
            }
            let length = end - start;
            if length == 1 && path[start] == 0x2e {
                assert(prefix.skip(start as int) =~= seq![dot()]);
                end = start;
            } else if length == 2 && path[start] == 0x2e && path[start + 1] == 0x2e {
                assert(prefix.skip(start as int) =~= seq![dot(), dot()]);
                return None;
            } else {
                let name = slice_to_vec(slice_subrange(path, start, end));
                proof {
                    let segment = prefix.skip(start as int);
                    assert(name@ =~= segment);
                    if segment == seq![dot()] {
                        assert(segment.len() == 1 && segment[0] == dot());
                    }
                    if segment == seq![dot(), dot()] {
                        assert(segment.len() == 2 && segment[0] == dot() && segment[1] == dot());
                    }
                }
                return Some(name);
            }
        }
    }
    None
}

/// Appends the decimal digits of a number.
pub fn push_decimal(out: &mut Vec<u8>, n: u64)
    ensures
        final(out)@ == old(out)@ + decimal(n as nat),
    decreases n,
{
    if n >= 10 {
        push_decimal(out, n / 10);
    }
    out.push(0x30 + (n % 10) as u8);
    assert(out@ =~= old(out)@ + decimal(n as nat));
}

/// Appends a byte string.
pub fn push_bytes(out: &mut Vec<u8>, bytes: &[u8])
    ensures
        final(out)@ == old(out)@ + bytes@,
{
    let mut i: usize = 0;
    assert(out@ =~= old(out)@ + bytes@.take(0));
    while i < bytes.len()
        invariant
            i <= bytes.len(),
            out@ == old(out)@ + bytes@.take(i as int),
        decreases bytes.len() - i,
    {
        out.push(bytes[i]);
        assert(bytes@.take(i + 1) =~= bytes@.take(i as int).push(bytes@[i as int]));
        assert(out@ =~= old(out)@ + bytes@.take(i + 1));
        i += 1;
    }
    assert(bytes@.take(i as int) =~= bytes@);
}

/// The name under which the item lies in the trash at the given attempt.
pub fn make_internal_name(base: &[u8], attempt: u64) -> (name: Vec<u8>)
    ensures
        name@ == internal_name(base@, attempt as nat),
{
    let mut name = slice_to_vec(base);
    if attempt > 1 {
        name.push(0x2e);
        push_decimal(&mut name, attempt);
        assert(name@ =~= internal_name(base@, attempt as nat));
    }
    name
}

/// The name of the metadata file at the given attempt.
pub fn make_info_name(base: &[u8], attempt: u64) -> (name: Vec<u8>)
    ensures
        name@ == info_name(base@, attempt as nat),
{
    let mut name = make_internal_name(base, attempt);
    push_bytes(&mut name, ".trashinfo".as_bytes());
    name
}

/// A directory and a name as one path.
pub fn join(dir: &[u8], name: &[u8]) -> (path: Vec<u8>)
    ensures
        path@ == joined(dir@, name@),
{
    if name.len() > 0 && name[0] == 0x2f {
        return slice_to_vec(name);
    }
    let mut path = slice_to_vec(dir);
    if dir.len() > 0 && dir[dir.len() - 1] != 0x2f {
        path.push(0x2f);
    }
    push_bytes(&mut path, name);
    assert(path@ =~= joined(dir@, name@));
    path
}

} // verus!

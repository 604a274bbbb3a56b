//! The symbolic offset resolver.
//!
//! A reflection dump — parsed elsewhere and handed in as plain entries — maps
//! each class or struct name to its sizes and its ordered attribute records.
//! Lookups answer "the byte offset (or size) of field F on type T" for a path
//! written `"Type.Field"`. Classes and structs share one lookup namespace,
//! classes first, but are stored apart because only classes carry inheritance
//! metadata. A missing type or field is a configuration error, never a default:
//! the total `try_` forms return `None`, and the plain forms require presence.

use vstd::prelude::*;

use crate::pattern::{hex_val, spec_hex_val};

verus! {

/// One attribute record: field name, declared type text, byte size, byte offset.
#[allow(non_snake_case)]
pub struct SdkAttribute {
    pub Name: String,
    pub Type: String,
    pub Size: u32,
    pub Offset: u32,
}

/// One reflected class: its parent, sizes, and attributes.
#[allow(non_snake_case)]
pub struct SdkClass {
    pub Super: String,
    pub FullSize: u32,
    pub InheritedSize: u32,
    pub ClassSize: u32,
    pub Attributes: Vec<SdkAttribute>,
}

/// One reflected struct: its size and attributes.
#[allow(non_snake_case)]
pub struct SdkStruct {
    pub ClassSize: u32,
    pub Attributes: Vec<SdkAttribute>,
}

/// The reflection table: classes and structs, each keyed by type name. Built
/// once at start-up, read-only afterwards; lookups take the first entry with a
/// matching name.
pub struct SdkService {
    pub classes: Vec<(String, SdkClass)>,
    pub structs: Vec<(String, SdkStruct)>,
}

/// The first entry under the given name, if any.
pub open spec fn find_entry<T>(entries: Seq<(String, T)>, name: Seq<char>) -> Option<T>
    decreases entries.len(),
{
    if entries.len() == 0 {
        None
    } else if entries[0].0@ == name {
        Some(entries[0].1)
    } else {
        find_entry(entries.drop_first(), name)
    }
}

/// The first attribute record under the given field name, if any.
pub open spec fn find_attr(attrs: Seq<SdkAttribute>, name: Seq<char>) -> Option<SdkAttribute>
    decreases attrs.len(),
{
    if attrs.len() == 0 {
        None
    } else if attrs[0].Name@ == name {
        Some(attrs[0])
    } else {
        find_attr(attrs.drop_first(), name)
    }
}

/// The index of the first `.` at or after `i`, or the length if there is none.
pub open spec fn dot_end(s: Seq<char>, i: int) -> int
    decreases s.len() - i,
    when 0 <= i <= s.len()
{
    if i >= s.len() {
        s.len() as int
    } else if s[i] == '.' {
        i
    } else {
        dot_end(s, i + 1)
    }
}

/// True when the path has at least two dot-separated segments.
pub open spec fn path_wf(s: Seq<char>) -> bool {
    dot_end(s, 0) < s.len()
}

/// The first segment of the path: the type name.
pub open spec fn path_type(s: Seq<char>) -> Seq<char> {
    s.take(dot_end(s, 0))
}

/// The second segment of the path: the field name.
pub open spec fn path_field(s: Seq<char>) -> Seq<char>
    recommends
        path_wf(s),
{
    let j = dot_end(s, 0);
    s.subrange(j + 1, dot_end(s, j + 1))
}

/// The value of a hexadecimal digit string read from position `i` on, onto `acc`.
pub open spec fn hex_value_from(s: Seq<char>, i: int, acc: int) -> Option<int>
    decreases s.len() - i,
    when 0 <= i <= s.len()
{
    if i >= s.len() {
        Some(acc)
    } else {
        match spec_hex_val(s[i]) {
            None => None,
            Some(d) => hex_value_from(s, i + 1, acc * 16 + d),
        }
    }
}

proof fn lemma_hex_value_monotone(s: Seq<char>, i: int, acc: int)
    requires
        0 <= i <= s.len(),
        acc >= 0,
    ensures
        hex_value_from(s, i, acc) matches Some(v) ==> v >= acc,
    decreases s.len() - i,
{
    if i < s.len() {
        match spec_hex_val(s[i]) {
            None => {},
            Some(d) => {
                lemma_hex_value_monotone(s, i + 1, acc * 16 + d);
            },
        }
    }
}

/// How a hex-encoded size or offset field decodes: a leading `-` is the
/// "unknown" sentinel and is normalised to zero, never treated as a negative
/// number; otherwise the first two characters (the `0x` prefix) are skipped and
/// the rest must be hexadecimal digits whose value fits 32 bits.
pub open spec fn spec_parse_hex_field(s: Seq<char>) -> Option<u32> {
    if s.len() > 0 && s[0] == '-' {
        Some(0)
    } else if s.len() <= 2 {
        None
    } else {
        match hex_value_from(s, 2, 0) {
            None => None,
            Some(v) => if v <= u32::MAX {
                Some(v as u32)
            } else {
                None
            },
        }
    }
}

/// Decode a hex-encoded size or offset field of the reflection dump.
pub fn parse_hex_field(s: &str) -> (r: Option<u32>)
    ensures
        r == spec_parse_hex_field(s@),
{
    let n = s.unicode_len();
    if n > 0 && s.get_char(0) == '-' {
        return Some(0);
    }
    if n <= 2 {
        return None;
    }
    let mut acc: u32 = 0;
    let mut i: usize = 2;
    while i < n
        invariant
            2 <= i <= n,
            2 < n == s@.len(),
            s@[0] != '-',
            hex_value_from(s@, 2, 0) == hex_value_from(s@, i as int, acc as int),
        decreases n - i,
    {
        match hex_val(s.get_char(i)) {
            None => {
                return None;
            },
            Some(d) => {
                proof {
                    lemma_hex_value_monotone(s@, i + 1, acc * 16 + d);
                }
                if acc > (u32::MAX - d as u32) / 16 {
                    assert(acc as int * 16 + d as int > u32::MAX);
                    return None;
                }
                acc = acc * 16 + d as u32;
            },
        }
        i = i + 1;
    }
    Some(acc)
}

/// Build the resolver from parsed entries. The dump is loaded and parsed by the
/// caller; this service is read-only afterwards.
pub fn sdk_service(classes: Vec<(String, SdkClass)>, structs: Vec<(String, SdkStruct)>) -> (r:
    SdkService)
    ensures
        r.classes@ == classes@,
        r.structs@ == structs@,
{
    SdkService { classes, structs }
}

/// The first entry under the given name, if any.
fn find_in<'a, T>(entries: &'a Vec<(String, T)>, name: &String) -> (r: Option<&'a T>)
    ensures
        r matches Some(v) ==> find_entry(entries@, name@) == Some(*v),
        r is None ==> find_entry(entries@, name@) is None,
{
    proof {
        assert(entries@.skip(0) =~= entries@);
    }
    let n = entries.len();
    let mut i: usize = 0;
    while i < n
        invariant
            0 <= i <= n,
            n == entries@.len(),
            find_entry(entries@, name@) == find_entry(entries@.skip(i as int), name@),
        decreases n - i,
    {
        proof {
            let rest = entries@.skip(i as int);
            assert(rest[0] == entries@[i as int]);
            assert(rest.drop_first() =~= entries@.skip(i + 1 as int));
        }
        if entries[i].0.eq(name) {
            return Some(&entries[i].1);
        }
        i = i + 1;
    }
    proof {
        assert(entries@.skip(n as int) =~= Seq::<(String, T)>::empty());
    }
    None
}

impl SdkService {
    /// An empty table, to be filled by the loader.
    pub fn new() -> (r: SdkService)
        ensures
            r.classes@ == Seq::<(String, SdkClass)>::empty(),
            r.structs@ == Seq::<(String, SdkStruct)>::empty(),
    {
        SdkService { classes: Vec::new(), structs: Vec::new() }
    }

    /// The attribute records of a type: classes first, then structs.
    pub open spec fn spec_attributes(&self, name: Seq<char>) -> Option<Seq<SdkAttribute>> {
        match find_entry(self.classes@, name) {
            Some(c) => Some(c.Attributes@),
            None => match find_entry(self.structs@, name) {
                Some(s) => Some(s.Attributes@),
                None => None,
            },
        }
    }

    /// The attribute record a path resolves to, if the path is well formed and
    /// both the type and the field exist.
    pub open spec fn spec_attribute(&self, path: Seq<char>) -> Option<SdkAttribute> {
        if !path_wf(path) {
            None
        } else {
            match self.spec_attributes(path_type(path)) {
                None => None,
                Some(attrs) => find_attr(attrs, path_field(path)),
            }
        }
    }

    /// The byte offset a path resolves to, if it resolves.
    pub open spec fn spec_offset(&self, path: Seq<char>) -> Option<u32> {
        match self.spec_attribute(path) {
            Some(a) => Some(a.Offset),
            None => None,
        }
    }

    /// The attribute byte size a path resolves to, if it resolves.
    pub open spec fn spec_attribute_size(&self, path: Seq<char>) -> Option<u32> {
        match self.spec_attribute(path) {
            Some(a) => Some(a.Size),
            None => None,
        }
    }

    /// The whole-object size of a type: classes first, then structs.
    pub open spec fn spec_type_size(&self, name: Seq<char>) -> Option<u32> {
        match find_entry(self.classes@, name) {
            Some(c) => Some(c.ClassSize),
            None => match find_entry(self.structs@, name) {
                Some(s) => Some(s.ClassSize),
                None => None,
            },
        }
    }

    /// The attribute records of a type, if it exists.
    pub fn get_attributes<'a>(&'a self, struct_or_class_name: &str) -> (r: Option<
        &'a Vec<SdkAttribute>,
    >)
        ensures
            r matches Some(v) ==> self.spec_attributes(struct_or_class_name@) == Some(v@),
            r is None ==> self.spec_attributes(struct_or_class_name@) is None,
    {
        let owned = struct_or_class_name.to_owned();
        match find_in(&self.classes, &owned) {
            Some(c) => Some(&c.Attributes),
            None => match find_in(&self.structs, &owned) {
                Some(s) => Some(&s.Attributes),
                None => None,
            },
        }
    }

    /// The attribute record a `"Type.Field"` path resolves to, or `None` when
    /// the path is malformed, the type is missing, or the field is missing.
    pub fn try_get_attribute<'a>(&'a self, attribute_path: &str) -> (r: Option<&'a SdkAttribute>)
        ensures
            r matches Some(a) ==> self.spec_attribute(attribute_path@) == Some(*a),
            r is None ==> self.spec_attribute(attribute_path@) is None,
    {
        let n = attribute_path.unicode_len();
        // find the first dot
        let mut i: usize = 0;
        while i < n && attribute_path.get_char(i) != '.'
            invariant
                0 <= i <= n,
                n == attribute_path@.len(),
                dot_end(attribute_path@, 0) == dot_end(attribute_path@, i as int),
            decreases n - i,
        {
            i = i + 1;
        }
        assert(dot_end(attribute_path@, 0) == i as int);
        if i >= n {
            assert(!path_wf(attribute_path@));
            return None;
        }
        // find the end of the second segment
        let mut j: usize = i + 1;
        while j < n && attribute_path.get_char(j) != '.'
            invariant
                i + 1 <= j <= n,
                n == attribute_path@.len(),
                dot_end(attribute_path@, i + 1 as int) == dot_end(attribute_path@, j as int),
            decreases n - j,
        {
            j = j + 1;
        }
        assert(dot_end(attribute_path@, i + 1 as int) == j as int);
        let owner_name = attribute_path.substring_char(0, i);
        let field_name = attribute_path.substring_char(i + 1, j).to_owned();
        assert(owner_name@ == path_type(attribute_path@));
        assert(field_name@ == path_field(attribute_path@));
        let attrs = match self.get_attributes(owner_name) {
            Some(v) => v,
            None => {
                return None;
            },
        };
        proof {
            assert(attrs@.skip(0) =~= attrs@);
        }
        let m = attrs.len();
        let mut k: usize = 0;
        while k < m
            invariant
                0 <= k <= m,
                m == attrs@.len(),
                path_wf(attribute_path@),
                self.spec_attributes(path_type(attribute_path@)) == Some(attrs@),
                field_name@ == path_field(attribute_path@),
                find_attr(attrs@, field_name@) == find_attr(attrs@.skip(k as int), field_name@),
            decreases m - k,
        {
            proof {
                let rest = attrs@.skip(k as int);
                assert(rest[0] == attrs@[k as int]);
                assert(rest.drop_first() =~= attrs@.skip(k + 1 as int));
            }
            if attrs[k].Name.eq(&field_name) {
                return Some(&attrs[k]);
            }
            k = k + 1;
        }
        proof {
            assert(attrs@.skip(m as int) =~= Seq::<SdkAttribute>::empty());
        }
        None
    }

    /// The byte offset a path resolves to, or `None` when it does not resolve.
    pub fn try_get_offset(&self, attribute_path: &str) -> (r: Option<u32>)
        ensures
            r == self.spec_offset(attribute_path@),
    {
        match self.try_get_attribute(attribute_path) {
            Some(a) => Some(a.Offset),
            None => None,
        }
    }

    /// The byte offset of field F on type T, for a path `"Type.Field"` that is
    /// statically known to resolve.
    pub fn get_offset(&self, attribute_path: &str) -> (r: u32)
        requires
            self.spec_offset(attribute_path@) is Some,
        ensures
            Some(r) == self.spec_offset(attribute_path@),
    {
        match self.try_get_offset(attribute_path) {
            Some(v) => v,
            None => 0,
        }
    }

    /// The attribute byte size a path resolves to, or `None` when it does not resolve.
    pub fn try_get_attribute_size(&self, attribute_path: &str) -> (r: Option<u32>)
        ensures
            r == self.spec_attribute_size(attribute_path@),
    {
        match self.try_get_attribute(attribute_path) {
            Some(a) => Some(a.Size),
            None => None,
        }
    }

    /// The byte size of field F on type T, for a path that is statically known
    /// to resolve.
    pub fn get_attribute_size(&self, attribute_path: &str) -> (r: u32)
        requires
            self.spec_attribute_size(attribute_path@) is Some,
        ensures
            Some(r) == self.spec_attribute_size(attribute_path@),
    {
        match self.try_get_attribute_size(attribute_path) {
            Some(v) => v,
            None => 0,
        }
    }

    /// The whole-object size of a type, or `None` when the type is missing.
    pub fn try_get_class_or_struct_size(&self, struct_or_class_name: &str) -> (r: Option<u32>)
        ensures
            r == self.spec_type_size(struct_or_class_name@),
    {
        let owned = struct_or_class_name.to_owned();
        match find_in(&self.classes, &owned) {
            Some(c) => Some(c.ClassSize),
            None => match find_in(&self.structs, &owned) {
                Some(s) => Some(s.ClassSize),
                None => None,
            },
        }
    }

    /// The whole-object size of a type that is statically known to exist.
    pub fn get_class_or_struct_size(&self, struct_or_class_name: &str) -> (r: u32)
        requires
            self.spec_type_size(struct_or_class_name@) is Some,
        ensures
            Some(r) == self.spec_type_size(struct_or_class_name@),
    {
        match self.try_get_class_or_struct_size(struct_or_class_name) {
            Some(v) => v,
            None => 0,
        }
    }
}

} // verus!

//! The table of named telemetry channels that the region describes.

use vstd::prelude::*;
use crate::header::{header_encoded, le_i32, read_i32_le, HEADER_LEN};
use crate::region::SharedMemory;
use crate::text::{c_str, utf8_c_str, utf8_decoded};

verus! {

/// Length in bytes of one raw variable-header entry.
pub const VAR_HEADER_LEN: usize = 144;

/// Offset and width of the name field within a raw entry.
pub const VAR_NAME_OFFSET: usize = 16;
pub const VAR_NAME_LEN: usize = 32;

/// The primitive type of a channel.
#[derive(Clone, Copy, Debug, PartialEq, Eq, Structural)]
pub enum VarType {
    Char,
    Bool,
    Int,
    BitField,
    Float,
    Double,
}

/// The type that a raw type tag denotes.
pub open spec fn var_type_of(tag: i32) -> Option<VarType> {
    if tag == 0 {
        Some(VarType::Char)
    } else if tag == 1 {
        Some(VarType::Bool)
    } else if tag == 2 {
        Some(VarType::Int)
    } else if tag == 3 {
        Some(VarType::BitField)
    } else if tag == 4 {
        Some(VarType::Float)
    } else if tag == 5 {
        Some(VarType::Double)
    } else {
        None
    }
}

impl VarType {
    /// Width in bytes of one element of this type.
    pub open spec fn size_spec(self) -> int {
        match self {
            VarType::Char => 1,
            VarType::Bool => 1,
            VarType::Int => 4,
            VarType::BitField => 4,
            VarType::Float => 4,
            VarType::Double => 8,
        }
    }

    /// Decodes a raw type tag.
    pub fn from_tag(tag: i32) -> (r: Option<VarType>)
        ensures
            r == var_type_of(tag),
    {
        match tag {
            0 => Some(VarType::Char),
            1 => Some(VarType::Bool),
            2 => Some(VarType::Int),
            3 => Some(VarType::BitField),
            4 => Some(VarType::Float),
            5 => Some(VarType::Double),
            _ => None,
        }
    }

    /// Width in bytes of one element of this type.
    pub fn size(self) -> (r: i64)
        ensures
            r == self.size_spec(),
            1 <= r <= 8,
    {
        match self {
            VarType::Char => 1,
            VarType::Bool => 1,
            VarType::Int => 4,
            VarType::BitField => 4,
            VarType::Float => 4,
            VarType::Double => 8,
        }
    }
}

/// Describes one telemetry channel within a data buffer.
#[derive(Clone, Debug)]
pub struct VarHeader {
    pub name: String,
    pub var_type: VarType,
    pub offset: i32,
    pub count: i32,
    pub count_as_time: bool,
}

/// What a `VarHeader` holds, as mathematical values.
pub struct VarHeaderView {
    pub name: Seq<char>,
    pub var_type: VarType,
    pub offset: i32,
    pub count: i32,
    pub count_as_time: bool,
}

impl View for VarHeader {
    type V = VarHeaderView;

    open spec fn view(&self) -> VarHeaderView {
        VarHeaderView {
            name: self.name@,
            var_type: self.var_type,
            offset: self.offset,
            count: self.count,
            count_as_time: self.count_as_time,
        }
    }
}

/// Decodes one raw entry for data buffers of `buf_len` bytes: `None` when
/// the type tag is unknown, the element range falls outside the buffer, or
/// the name is empty or not valid UTF-8.
pub open spec fn decode_var_header(raw: Seq<u8>, buf_len: i32) -> Option<VarHeaderView> {
    let offset = le_i32(raw, 4);
    let count = le_i32(raw, 8);
    match var_type_of(le_i32(raw, 0)) {
        None => None,
        Some(t) => if offset >= 0 && count >= 1 && offset + count * t.size_spec() <= buf_len {
            match utf8_decoded(c_str(raw.subrange(VAR_NAME_OFFSET as int, (VAR_NAME_OFFSET + VAR_NAME_LEN) as int))) {
                Some(name) => if name.len() > 0 {
                    Some(
                        VarHeaderView {
                            name,
                            var_type: t,
                            offset,
                            count,
                            count_as_time: raw[12] != 0,
                        },
                    )
                } else {
                    None
                },
                None => None,
            }
        } else {
            None
        },
    }
}

impl VarHeader {
    /// Decodes the raw entry at `b[start..start + VAR_HEADER_LEN]`.
    pub fn from_raw(b: &[u8], start: usize, buf_len: i32) -> (r: Option<VarHeader>)
        requires
            start + VAR_HEADER_LEN <= b@.len(),
        ensures
            r matches Some(h) ==> decode_var_header(
                b@.subrange(start as int, start + VAR_HEADER_LEN),
                buf_len,
            ) == Some(h@),
            r is None ==> decode_var_header(
                b@.subrange(start as int, start + VAR_HEADER_LEN),
                buf_len,
            ) is None,
    {
        let ghost raw = b@.subrange(start as int, start + VAR_HEADER_LEN);
        let _blen: usize = b.len();
        let tag = read_i32_le(b, start);
        let offset = read_i32_le(b, start + 4);
        let count = read_i32_le(b, start + 8);
        assert(le_i32(raw, 0) == tag);
        assert(le_i32(raw, 4) == offset);
        assert(le_i32(raw, 8) == count);
        assert(raw.subrange(VAR_NAME_OFFSET as int, (VAR_NAME_OFFSET + VAR_NAME_LEN) as int)
            =~= b@.subrange(start + VAR_NAME_OFFSET, start + VAR_NAME_OFFSET + VAR_NAME_LEN));
        let var_type = match VarType::from_tag(tag) {
            Some(t) => t,
            None => return None,
        };
        let size = var_type.size();
        if offset < 0 || count < 1 {
            return None;
        }
        assert(count as i64 * size <= count as i64 * 8) by (nonlinear_arith)
            requires
                size <= 8,
                count >= 1,
        ;
        if offset as i64 + count as i64 * size > buf_len as i64 {
            return None;
        }
        let name_start = start + VAR_NAME_OFFSET;
        let name = match utf8_c_str(b, name_start, name_start + VAR_NAME_LEN) {
            Some(n) => n,
            None => return None,
        };
        if name.as_str().is_empty() {
            return None;
        }
        Some(VarHeader { name, var_type, offset, count, count_as_time: b[start + 12] != 0 })
    }
}

/// The channel views of a table.
pub open spec fn views(t: Seq<VarHeader>) -> Seq<VarHeaderView> {
    t.map_values(|h: VarHeader| h@)
}

/// The last index of `t` whose entry is named `name`, or -1.
pub open spec fn find_name(t: Seq<VarHeaderView>, name: Seq<char>) -> int
    decreases t.len(),
{
    if t.len() == 0 {
        -1
    } else if t.last().name == name {
        t.len() - 1
    } else {
        find_name(t.drop_last(), name)
    }
}

/// `t` with `h` added: it replaces the entry of the same name if there is one.
pub open spec fn upsert(t: Seq<VarHeaderView>, h: VarHeaderView) -> Seq<VarHeaderView> {
    let i = find_name(t, h.name);
    if i >= 0 {
        t.update(i, h)
    } else {
        t.push(h)
    }
}

/// The table built from decoded entries in order: undecodable entries are
/// skipped and a later entry replaces an earlier one of the same name.
pub open spec fn table_of(entries: Seq<Option<VarHeaderView>>) -> Seq<VarHeaderView>
    decreases entries.len(),
{
    if entries.len() == 0 {
        Seq::empty()
    } else {
        let t = table_of(entries.drop_last());
        match entries.last() {
            Some(h) => upsert(t, h),
            None => t,
        }
    }
}

/// No two entries share a name.
pub open spec fn names_unique(t: Seq<VarHeaderView>) -> bool {
    forall|i: int, j: int| 0 <= i < j < t.len() ==> #[trigger] t[i].name != #[trigger] t[j].name
}

proof fn lemma_find_name(t: Seq<VarHeaderView>, name: Seq<char>)
    ensures
        -1 <= find_name(t, name) < t.len(),
        find_name(t, name) >= 0 ==> t[find_name(t, name)].name == name,
        find_name(t, name) == -1 ==> forall|i: int| 0 <= i < t.len() ==> #[trigger] t[i].name != name,
    decreases t.len(),
{
    if t.len() > 0 && t.last().name != name {
        lemma_find_name(t.drop_last(), name);
        assert forall|i: int| 0 <= i < t.len() && find_name(t, name) == -1 implies #[trigger] t[i].name != name by {
            if i < t.len() - 1 {
                assert(t[i] == t.drop_last()[i]);
            }
        }
    }
}

/// Tables built by `table_of` never hold two entries of one name.
pub proof fn lemma_table_names_unique(entries: Seq<Option<VarHeaderView>>)
    ensures
        names_unique(table_of(entries)),
    decreases entries.len(),
{
    if entries.len() > 0 {
        let t = table_of(entries.drop_last());
        lemma_table_names_unique(entries.drop_last());
        if let Some(h) = entries.last() {
            lemma_find_name(t, h.name);
            let u = upsert(t, h);
            assert forall|i: int, j: int| 0 <= i < j < u.len() implies #[trigger] u[i].name != #[trigger] u[j].name by {
                if find_name(t, h.name) < 0 {
                    if j == t.len() {
                        assert(t[i].name != h.name);
                    } else {
                        assert(t[i].name != t[j].name);
                    }
                } else {
                    assert(t[i].name != t[j].name);
                }
            }
        }
    }
}

/// Adds `h` to the table, replacing the entry of the same name.
pub fn insert_var_header(t: &mut Vec<VarHeader>, h: VarHeader)
    ensures
        views(final(t)@) == upsert(views(old(t)@), h@),
{
    let ghost v = views(t@);
    let mut j: usize = t.len();
    assert(v.take(j as int) =~= v);
    while j > 0
        invariant
            j <= t@.len(),
            v == views(t@),
            v == views(old(t)@),
            find_name(v, h@.name) == find_name(v.take(j as int), h@.name),
        decreases j,
    {
        assert(v.take(j as int).last() == v[j - 1]);
        if t[j - 1].name == h.name {
            assert(v[j - 1].name == h@.name);
            assert(find_name(v, h@.name) == j - 1);
            let k = j - 1;
            t.set(k, h);
            assert(views(t@) =~= upsert(v, h@));
            return;
        }
        assert(v.take(j as int).drop_last() =~= v.take(j - 1));
        j -= 1;
    }
    assert(v.take(0) =~= Seq::<VarHeaderView>::empty());
    t.push(h);
    assert(views(t@) =~= upsert(v, h@));
}

/// The `k`-th raw entry of the table that the header of region `b` locates,
/// decoded; `None` also when the entry does not lie within `b`.
pub open spec fn raw_entry(b: Seq<u8>, k: int) -> Option<VarHeaderView> {
    let table = le_i32(b, 28);
    let start = table + VAR_HEADER_LEN * k;
    if table >= 0 && start + VAR_HEADER_LEN <= b.len() {
        decode_var_header(b.subrange(start, start + VAR_HEADER_LEN), le_i32(b, 36))
    } else {
        None
    }
}

/// All raw entries that the header of region `b` declares, decoded; none
/// when `b` is too short to hold a header.
pub open spec fn raw_entries(b: Seq<u8>) -> Seq<Option<VarHeaderView>> {
    let n: int = if b.len() < HEADER_LEN || le_i32(b, 24) < 0 {
        0
    } else {
        le_i32(b, 24) as int
    };
    Seq::new(n as nat, |k: int| raw_entry(b, k))
}

impl SharedMemory {
    /// Builds the variable-header table from the raw entries that the
    /// region's header declares.
    pub fn get_var_headers(&self) -> (r: Vec<VarHeader>)
        ensures
            views(r@) == table_of(raw_entries(self.bytes@)),
            names_unique(views(r@)),
    {
        let ghost entries = raw_entries(self.bytes@);
        let h = match self.header() {
            Some(h) => h,
            None => {
                assert(entries =~= Seq::<Option<VarHeaderView>>::empty());
                return Vec::new();
            },
        };
        let n: u64 = if h.num_vars < 0 {
            0
        } else {
            h.num_vars as u64
        };
        let blen: usize = self.bytes.len();
        let mut t: Vec<VarHeader> = Vec::new();
        let mut k: u64 = 0;
        while k < n
            invariant
                n == entries.len(),
                n < 0x8000_0000,
                blen == self.bytes@.len(),
                entries == raw_entries(self.bytes@),
                header_encoded(h, self.bytes@),
                k <= n,
                views(t@) == table_of(entries.take(k as int)),
            decreases n - k,
        {
            let ghost before = views(t@);
            let entry = if h.var_header_offset >= 0 {
                let pos: u64 = h.var_header_offset as u64 + 144 * k;
                if pos + 144 <= blen as u64 {
                    VarHeader::from_raw(&self.bytes, pos as usize, h.buf_len)
                } else {
                    None
                }
            } else {
                None
            };
            assert(entry matches Some(e) ==> entries[k as int] == Some(e@));
            assert(entry is None ==> entries[k as int] is None);
            match entry {
                Some(e) => insert_var_header(&mut t, e),
                None => {},
            }
            assert(entries.take(k + 1).drop_last() =~= entries.take(k as int));
            k += 1;
        }
        assert(entries.take(n as int) =~= entries);
        proof {
            lemma_table_names_unique(entries);
        }
        t
    }
}

} // verus!

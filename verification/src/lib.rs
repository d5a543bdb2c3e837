//! Interactive registry search: a verified model of the application core.
//!
//! The library holds the data model and the decision logic of a terminal
//! application that crawls the Windows registry for keys and values whose
//! names or data contain any of a set of case-insensitive search terms.
//! Terminal drawing, keystroke polling and the platform registry calls stay
//! outside; the functions here take their outcomes as plain values.
use vstd::prelude::*;

pub mod clock;
pub mod controls;
pub mod laws;
pub mod ordered_set;
pub mod root;
pub mod search_editor;
pub mod search_term_tracker;
pub mod static_selection;
pub mod strings;
pub mod worker_manager;
pub mod worker_runtime;

verus! {

/// Milliseconds that must pass between two accepted cursor moves.
pub const DEBOUNCE: u64 = 100;

/// Milliseconds the input loop waits for a terminal event before re-checking.
pub const EVENT_POLL_TIMEOUT: u64 = 200;

/// How an open editor will resolve: adding a new term, or replacing the
/// original it was opened on.
#[derive(Debug, Clone)]
pub enum EditorMode {
    Add,
    Edit(String),
}

/// Where the user's attention is: the main panes, an open search-term
/// editor, the help overlay, or the close confirmation.
#[derive(Debug, Clone)]
pub enum Focus {
    Main,
    SearchMod(search_editor::SearchEditor),
    Help,
    ConfirmClose,
}

/// One renderable row of a pane: its text and whether the cursor is on it.
pub struct Row {
    pub text: String,
    pub selected: bool,
}

/// The kind tag of a registry value, as the platform defines it.
#[derive(Clone, Copy, PartialEq, Eq, Structural, Debug)]
pub enum RegType {
    RegNone,
    RegSz,
    RegExpandSz,
    RegBinary,
    RegDword,
    RegDwordBigEndian,
    RegLink,
    RegMultiSz,
    RegResourceList,
    RegFullResourceDescriptor,
    RegResourceRequirementsList,
    RegQword,
}

impl RegType {
    /// The platform's canonical name of this kind.
    pub open spec fn spec_name(self) -> Seq<char> {
        match self {
            RegType::RegNone => "REG_NONE"@,
            RegType::RegSz => "REG_SZ"@,
            RegType::RegExpandSz => "REG_EXPAND_SZ"@,
            RegType::RegBinary => "REG_BINARY"@,
            RegType::RegDword => "REG_DWORD"@,
            RegType::RegDwordBigEndian => "REG_DWORD_BIG_ENDIAN"@,
            RegType::RegLink => "REG_LINK"@,
            RegType::RegMultiSz => "REG_MULTI_SZ"@,
            RegType::RegResourceList => "REG_RESOURCE_LIST"@,
            RegType::RegFullResourceDescriptor => "REG_FULL_RESOURCE_DESCRIPTOR"@,
            RegType::RegResourceRequirementsList => "REG_RESOURCE_REQUIREMENTS_LIST"@,
            RegType::RegQword => "REG_QWORD"@,
        }
    }

    /// The platform's canonical name of this kind.
    pub fn name(&self) -> (r: String)
        ensures
            r@ == self.spec_name(),
    {
        match self {
            RegType::RegNone => "REG_NONE".to_owned(),
            RegType::RegSz => "REG_SZ".to_owned(),
            RegType::RegExpandSz => "REG_EXPAND_SZ".to_owned(),
            RegType::RegBinary => "REG_BINARY".to_owned(),
            RegType::RegDword => "REG_DWORD".to_owned(),
            RegType::RegDwordBigEndian => "REG_DWORD_BIG_ENDIAN".to_owned(),
            RegType::RegLink => "REG_LINK".to_owned(),
            RegType::RegMultiSz => "REG_MULTI_SZ".to_owned(),
            RegType::RegResourceList => "REG_RESOURCE_LIST".to_owned(),
            RegType::RegFullResourceDescriptor => "REG_FULL_RESOURCE_DESCRIPTOR".to_owned(),
            RegType::RegResourceRequirementsList => "REG_RESOURCE_REQUIREMENTS_LIST".to_owned(),
            RegType::RegQword => "REG_QWORD".to_owned(),
        }
    }
}

/// A registry value as the platform hands it over: a kind tag and raw bytes.
#[derive(Clone, Debug)]
pub struct RegValue {
    pub vtype: RegType,
    pub bytes: Vec<u8>,
}

/// The little-endian reading of four bytes.
pub open spec fn spec_le_u32(b: Seq<u8>) -> int {
    b[0] + 256 * (b[1] + 256 * (b[2] + 256 * b[3]))
}

/// The big-endian reading of four bytes.
pub open spec fn spec_be_u32(b: Seq<u8>) -> int {
    b[3] + 256 * (b[2] + 256 * (b[1] + 256 * b[0]))
}

/// The little-endian reading of eight bytes.
pub open spec fn spec_le_u64(b: Seq<u8>) -> int {
    b[0] + 256 * (b[1] + 256 * (b[2] + 256 * (b[3] + 256 * (b[4] + 256 * (b[5] + 256 * (b[6]
        + 256 * b[7]))))))
}

/// The little-endian u32 held in a four-byte blob.
pub fn le_u32(bytes: &Vec<u8>) -> (r: u32)
    requires
        bytes@.len() == 4,
    ensures
        r == spec_le_u32(bytes@),
{
    let b0: u64 = bytes[0] as u64;
    let b1: u64 = bytes[1] as u64;
    let b2: u64 = bytes[2] as u64;
    let b3: u64 = bytes[3] as u64;
    let v: u64 = b0 + 256 * (b1 + 256 * (b2 + 256 * b3));
    v as u32
}

/// The big-endian u32 held in a four-byte blob.
pub fn be_u32(bytes: &Vec<u8>) -> (r: u32)
    requires
        bytes@.len() == 4,
    ensures
        r == spec_be_u32(bytes@),
{
    let b0: u64 = bytes[0] as u64;
    let b1: u64 = bytes[1] as u64;
    let b2: u64 = bytes[2] as u64;
    let b3: u64 = bytes[3] as u64;
    let v: u64 = b3 + 256 * (b2 + 256 * (b1 + 256 * b0));
    v as u32
}

/// The little-endian u64 held in an eight-byte blob.
pub fn le_u64(bytes: &Vec<u8>) -> (r: u64)
    requires
        bytes@.len() == 8,
    ensures
        r == spec_le_u64(bytes@),
{
    let b0: u64 = bytes[0] as u64;
    let b1: u64 = bytes[1] as u64;
    let b2: u64 = bytes[2] as u64;
    let b3: u64 = bytes[3] as u64;
    let b4: u64 = bytes[4] as u64;
    let b5: u64 = bytes[5] as u64;
    let b6: u64 = bytes[6] as u64;
    let b7: u64 = bytes[7] as u64;
    b0 + 256 * (b1 + 256 * (b2 + 256 * (b3 + 256 * (b4 + 256 * (b5 + 256 * (b6 + 256 * b7))))))
}


/// The position of the first NUL byte, or the length when there is none.
pub open spec fn first_nul(b: Seq<u8>) -> int
    decreases b.len(),
{
    if b.len() == 0 {
        0
    } else if b[0] == 0 {
        0
    } else {
        1 + first_nul(b.drop_first())
    }
}

/// A position with no NUL before it that holds a NUL, or ends the
/// sequence, is the first NUL.
pub proof fn lemma_first_nul_at(b: Seq<u8>, k: int)
    requires
        0 <= k <= b.len(),
        forall|j: int| 0 <= j < k ==> b[j] != 0,
        k < b.len() ==> b[k] == 0,
    ensures
        first_nul(b) == k,
    decreases k,
{
    if b.len() == 0 {
    } else if k == 0 {
    } else {
        assert(b[0] != 0);
        assert forall|j: int| 0 <= j < k - 1 implies b.drop_first()[j] != 0 by {
            assert(b.drop_first()[j] == b[j + 1]);
        }
        if k - 1 < b.drop_first().len() {
            assert(b.drop_first()[k - 1] == b[k]);
        }
        lemma_first_nul_at(b.drop_first(), k - 1);
    }
}

/// The segments of the sequence between its NUL bytes.
pub open spec fn spec_split_nul(b: Seq<u8>) -> Seq<Seq<u8>>
    decreases b.len(),
{
    let i = first_nul(b);
    if 0 <= i < b.len() {
        seq![b.subrange(0, i)] + spec_split_nul(b.subrange(i + 1, b.len() as int))
    } else {
        seq![b]
    }
}

/// The parts joined with a comma and a space between each two.
pub open spec fn spec_join_comma(parts: Seq<Seq<char>>) -> Seq<char>
    decreases parts.len(),
{
    if parts.len() == 0 {
        Seq::empty()
    } else if parts.len() == 1 {
        parts[0]
    } else {
        parts[0] + ", "@ + spec_join_comma(parts.drop_first())
    }
}

/// The rendering of a multi-string blob: the segments between NUL bytes,
/// each decoded, joined with a comma; one empty trailing segment, from a
/// terminating NUL, is dropped.
pub open spec fn spec_multi_sz(b: Seq<u8>) -> Seq<char> {
    let parts = spec_split_nul(b);
    let trimmed = if parts.len() > 0 && parts.last().len() == 0 {
        parts.drop_last()
    } else {
        parts
    };
    spec_join_comma(trimmed.map(|i: int, seg: Seq<u8>| crate::strings::utf8_lossy_of(seg)))
}

/// The platform's default rendering of a byte blob: the bytes as decimals
/// between brackets.
pub open spec fn spec_byte_list(b: Seq<u8>) -> Seq<char> {
    "["@ + spec_join_comma(b.map(|i: int, x: u8| crate::strings::spec_dec(x as nat))) + "]"@
}

/// The segments of `bytes` between NUL bytes, from position `start` on.
fn split_nul_from(bytes: &Vec<u8>, start: usize) -> (r: Vec<Vec<u8>>)
    requires
        start <= bytes@.len(),
    ensures
        r@.map(|k: int, seg: Vec<u8>| seg@) == spec_split_nul(bytes@.skip(start as int)),
    decreases bytes@.len() - start,
{
    let ghost tail = bytes@.skip(start as int);
    let n = bytes.len();
    let mut i: usize = start;
    while i < n && bytes[i] != 0
        invariant
            start <= i <= n,
            n == bytes@.len(),
            forall|j: int| start <= j < i ==> bytes@[j] != 0,
        decreases n - i,
    {
        i = i + 1;
    }
    let mut seg: Vec<u8> = Vec::new();
    let mut k: usize = start;
    while k < i
        invariant
            start <= k <= i <= n,
            n == bytes@.len(),
            seg@ == bytes@.subrange(start as int, k as int),
        decreases i - k,
    {
        seg.push(bytes[k]);
        proof {
            assert(seg@ =~= bytes@.subrange(start as int, k + 1));
        }
        k = k + 1;
    }
    proof {
        assert forall|j: int| 0 <= j < i - start implies tail[j] != 0 by {
            assert(tail[j] == bytes@[start + j]);
        }
        if i < n {
            assert(tail[i - start] == bytes@[i as int]);
        }
        lemma_first_nul_at(tail, i - start);
        assert(seg@ =~= tail.subrange(0, i - start));
    }
    if i == n {
        let mut r: Vec<Vec<u8>> = Vec::new();
        r.push(seg);
        proof {
            assert(seg@ =~= tail);
            assert(r@.map(|m: int, s: Vec<u8>| s@) =~= seq![tail]);
        }
        r
    } else {
        let mut rest = split_nul_from(bytes, i + 1);
        let ghost rest_pre = rest@;
        rest.insert(0, seg);
        proof {
            assert(tail.subrange(i - start + 1, tail.len() as int) =~= bytes@.skip(i + 1));
            let f = |m: int, s: Vec<u8>| s@;
            let target = seq![tail.subrange(0, i - start)] + spec_split_nul(
                tail.subrange(i - start + 1, tail.len() as int),
            );
            assert forall|m: int| 0 <= m < rest@.len() implies rest@.map(f)[m] == target[m] by {
                if m == 0 {
                    assert(rest@[0] == seg);
                } else {
                    assert(rest@[m] == rest_pre[m - 1]);
                    assert(rest_pre.map(f)[m - 1] == rest_pre[m - 1]@);
                }
            }
            assert(rest@.map(f) =~= target);
        }
        rest
    }
}

/// The segments of `bytes` between NUL bytes.
pub fn split_nul(bytes: &Vec<u8>) -> (r: Vec<Vec<u8>>)
    ensures
        r@.map(|k: int, seg: Vec<u8>| seg@) == spec_split_nul(bytes@),
{
    let r = split_nul_from(bytes, 0);
    proof {
        assert(bytes@.skip(0) =~= bytes@);
    }
    r
}

/// The parts from position `i` on, joined with a comma and a space.
fn join_comma_from(parts: &Vec<String>, i: usize) -> (r: String)
    requires
        i <= parts@.len(),
    ensures
        r@ == spec_join_comma(parts@.map(|k: int, s: String| s@).skip(i as int)),
    decreases parts@.len() - i,
{
    let ghost m = parts@.map(|k: int, s: String| s@);
    let n = parts.len();
    if i >= n {
        proof {
            assert(m.skip(i as int).len() == 0);
        }
        String::new()
    } else if i + 1 == n {
        let r = parts[i].clone();
        proof {
            assert(m.skip(i as int).len() == 1);
            assert(m.skip(i as int)[0] == m[i as int]);
        }
        r
    } else {
        let mut s = parts[i].clone();
        s.append(", ");
        let rest = join_comma_from(parts, i + 1);
        s.append(rest.as_str());
        proof {
            assert(m.skip(i as int).drop_first() =~= m.skip(i + 1));
            assert(m.skip(i as int)[0] == m[i as int]);
            assert(s@ =~= m.skip(i as int)[0] + ", "@ + spec_join_comma(
                m.skip(i as int).drop_first(),
            ));
        }
        s
    }
}

/// The bytes from position `i` on as decimals, joined with a comma.
fn dec_join_from(bytes: &Vec<u8>, i: usize) -> (r: String)
    requires
        i <= bytes@.len(),
    ensures
        r@ == spec_join_comma(
            bytes@.map(|k: int, x: u8| crate::strings::spec_dec(x as nat)).skip(i as int),
        ),
    decreases bytes@.len() - i,
{
    let ghost m = bytes@.map(|k: int, x: u8| crate::strings::spec_dec(x as nat));
    let n = bytes.len();
    if i >= n {
        proof {
            assert(m.skip(i as int).len() == 0);
        }
        String::new()
    } else if i + 1 == n {
        let r = crate::strings::u64_to_dec(bytes[i] as u64);
        proof {
            assert(m.skip(i as int).len() == 1);
            assert(m.skip(i as int)[0] == m[i as int]);
        }
        r
    } else {
        let mut s = crate::strings::u64_to_dec(bytes[i] as u64);
        s.append(", ");
        let rest = dec_join_from(bytes, i + 1);
        s.append(rest.as_str());
        proof {
            assert(m.skip(i as int).drop_first() =~= m.skip(i + 1));
            assert(m.skip(i as int)[0] == m[i as int]);
            assert(s@ =~= m.skip(i as int)[0] + ", "@ + spec_join_comma(
                m.skip(i as int).drop_first(),
            ));
        }
        s
    }
}

/// The rendering of a multi-string blob.
pub fn multi_sz_string(bytes: &Vec<u8>) -> (r: String)
    ensures
        r@ == spec_multi_sz(bytes@),
{
    let mut parts_bytes = split_nul(bytes);
    let ghost split = parts_bytes@.map(|k: int, seg: Vec<u8>| seg@);
    let pn = parts_bytes.len();
    if pn > 0 && parts_bytes[pn - 1].len() == 0 {
        let _ = parts_bytes.pop();
        proof {
            assert(parts_bytes@.map(|k: int, seg: Vec<u8>| seg@) =~= split.drop_last());
        }
    }
    let ghost trimmed = parts_bytes@.map(|k: int, seg: Vec<u8>| seg@);
    let mut parts: Vec<String> = Vec::new();
    let n = parts_bytes.len();
    let mut i: usize = 0;
    while i < n
        invariant
            i <= n,
            n == parts_bytes@.len(),
            trimmed == parts_bytes@.map(|k: int, seg: Vec<u8>| seg@),
            parts@.len() == i,
            forall|k: int|
                0 <= k < i ==> (#[trigger] parts@[k])@ == crate::strings::utf8_lossy_of(
                    trimmed[k],
                ),
        decreases n - i,
    {
        parts.push(crate::strings::utf8_lossy(parts_bytes[i].as_slice()));
        proof {
            assert(trimmed[i as int] == parts_bytes@[i as int]@);
        }
        i = i + 1;
    }
    let r = join_comma_from(&parts, 0);
    proof {
        let pv = parts@.map(|k: int, s: String| s@);
        assert(pv.skip(0) =~= pv);
        assert(pv =~= trimmed.map(|k: int, seg: Seq<u8>| crate::strings::utf8_lossy_of(seg)));
    }
    r
}

/// The platform's default rendering of a byte blob.
pub fn byte_list_string(bytes: &Vec<u8>) -> (r: String)
    ensures
        r@ == spec_byte_list(bytes@),
{
    let mut s = "[".to_owned();
    let inner = dec_join_from(bytes, 0);
    s.append(inner.as_str());
    s.append("]");
    proof {
        let m = bytes@.map(|k: int, x: u8| crate::strings::spec_dec(x as nat));
        assert(m.skip(0) =~= m);
        assert(s@ =~= "["@ + spec_join_comma(m) + "]"@);
    }
    s
}

/// What each registry value kind renders to in the data column.
pub open spec fn spec_reg_value_string(vtype: RegType, b: Seq<u8>) -> Seq<char> {
    match vtype {
        RegType::RegSz => crate::strings::utf8_lossy_of(b),
        RegType::RegExpandSz => crate::strings::utf8_lossy_of(b),
        RegType::RegBinary => "BIN_LENGTH: "@ + crate::strings::spec_dec(b.len()),
        RegType::RegDword => if b.len() == 4 {
            crate::strings::spec_dec(spec_le_u32(b) as nat)
        } else {
            "Invalid REG_DWORD"@
        },
        RegType::RegDwordBigEndian => if b.len() == 4 {
            crate::strings::spec_dec(spec_be_u32(b) as nat)
        } else {
            "Invalid REG_DWORD_BIG_ENDIAN"@
        },
        RegType::RegQword => if b.len() == 8 {
            crate::strings::spec_dec(spec_le_u64(b) as nat)
        } else {
            "Invalid REG_QWORD"@
        },
        RegType::RegMultiSz => spec_multi_sz(b),
        RegType::RegResourceList => spec_multi_sz(b),
        RegType::RegLink => spec_byte_list(b),
        RegType::RegFullResourceDescriptor => spec_byte_list(b),
        RegType::RegResourceRequirementsList => spec_byte_list(b),
        RegType::RegNone => "None"@,
    }
}

/// Render a registry value's data for the results pane.
pub fn alt_reg_value_to_string(reg_value: RegValue) -> (r: String)
    ensures
        r@ == spec_reg_value_string(reg_value.vtype, reg_value.bytes@),
{
    match reg_value.vtype {
        RegType::RegSz | RegType::RegExpandSz => {
            crate::strings::utf8_lossy(reg_value.bytes.as_slice())
        },
        RegType::RegBinary => {
            let mut s = "BIN_LENGTH: ".to_owned();
            let d = crate::strings::u64_to_dec(reg_value.bytes.len() as u64);
            s.append(d.as_str());
            s
        },
        RegType::RegDword => {
            if reg_value.bytes.len() == 4 {
                crate::strings::u64_to_dec(le_u32(&reg_value.bytes) as u64)
            } else {
                "Invalid REG_DWORD".to_owned()
            }
        },
        RegType::RegDwordBigEndian => {
            if reg_value.bytes.len() == 4 {
                crate::strings::u64_to_dec(be_u32(&reg_value.bytes) as u64)
            } else {
                "Invalid REG_DWORD_BIG_ENDIAN".to_owned()
            }
        },
        RegType::RegQword => {
            if reg_value.bytes.len() == 8 {
                crate::strings::u64_to_dec(le_u64(&reg_value.bytes))
            } else {
                "Invalid REG_QWORD".to_owned()
            }
        },
        RegType::RegMultiSz | RegType::RegResourceList => multi_sz_string(&reg_value.bytes),
        RegType::RegLink
        | RegType::RegFullResourceDescriptor
        | RegType::RegResourceRequirementsList => byte_list_string(&reg_value.bytes),
        RegType::RegNone => "None".to_owned(),
    }
}

} // verus!

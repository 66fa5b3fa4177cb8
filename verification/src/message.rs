//! The message abstraction the relay works on: an ordered collection of
//! tag-value fields, as handed over by the FIX engine after parsing.

use vstd::prelude::*;

verus! {

/// Field tag of MsgSeqNum, the per-session sequence number.
pub const TAG_MSG_SEQ_NUM: u32 = 34;

/// Field tag of MsgType; the value "2" denotes a Resend Request.
pub const TAG_MSG_TYPE: u32 = 35;

/// Field tag of BeginSeqNo, the first sequence number of a resend range.
pub const TAG_BEGIN_SEQ_NO: u32 = 7;

/// Field tag of EndSeqNo, the last sequence number of a resend range.
pub const TAG_END_SEQ_NO: u32 = 16;

/// Field tag of PossDupFlag, set to "Y" on replayed messages.
pub const TAG_POSS_DUP_FLAG: u32 = 43;

/// One tag-value pair of a message.
#[derive(Debug)]
pub struct Field {
    pub tag: u32,
    pub value: String,
}

/// An already-parsed FIX message: an ordered collection of tag-value
/// fields. Lookup and mutation go by the first field carrying a tag.
#[derive(Debug)]
pub struct Message {
    pub fields: Vec<Field>,
}

impl View for Field {
    type V = (u32, Seq<char>);

    open spec fn view(&self) -> (u32, Seq<char>) {
        (self.tag, self.value@)
    }
}

impl View for Message {
    type V = Seq<(u32, Seq<char>)>;

    open spec fn view(&self) -> Seq<(u32, Seq<char>)> {
        self.fields@.map_values(|f: Field| f@)
    }
}

/// Position of the first field carrying `tag`, if any.
pub open spec fn tag_index(m: Seq<(u32, Seq<char>)>, tag: u32) -> Option<int>
    decreases m.len(),
{
    if m.len() == 0 {
        None
    } else if m[0].0 == tag {
        Some(0)
    } else {
        match tag_index(m.drop_first(), tag) {
            Some(i) => Some(i + 1),
            None => None,
        }
    }
}

/// Value of the first field carrying `tag`, if any.
pub open spec fn field_value(m: Seq<(u32, Seq<char>)>, tag: u32) -> Option<Seq<char>> {
    match tag_index(m, tag) {
        Some(i) => Some(m[i].1),
        None => None,
    }
}

/// The message with `tag` set to `v`: the first field carrying `tag` is
/// replaced in place, or a new field is appended when the tag is absent.
pub open spec fn with_field(
    m: Seq<(u32, Seq<char>)>,
    tag: u32,
    v: Seq<char>,
) -> Seq<(u32, Seq<char>)> {
    match tag_index(m, tag) {
        Some(i) => m.update(i, (tag, v)),
        None => m.push((tag, v)),
    }
}

/// `tag_index` names the first position carrying the tag: it is in range,
/// it carries the tag, and no earlier position does; `None` means no
/// position carries the tag.
pub proof fn lemma_tag_index(m: Seq<(u32, Seq<char>)>, tag: u32)
    ensures
        match tag_index(m, tag) {
            Some(i) => 0 <= i < m.len() && m[i].0 == tag && (forall|j: int|
                0 <= j < i ==> m[j].0 != tag),
            None => forall|j: int| 0 <= j < m.len() ==> m[j].0 != tag,
        },
    decreases m.len(),
{
    if m.len() > 0 && m[0].0 != tag {
        let rest = m.drop_first();
        lemma_tag_index(rest, tag);
        assert(forall|j: int| 0 <= j < rest.len() ==> rest[j] == m[j + 1]);
        match tag_index(rest, tag) {
            Some(i) => {
                assert(m[i + 1].0 == tag);
                assert forall|j: int| 0 <= j < i + 1 implies m[j].0 != tag by {
                    if j > 0 {
                        assert(rest[j - 1].0 != tag);
                    }
                }
            },
            None => {
                assert forall|j: int| 0 <= j < m.len() implies m[j].0 != tag by {
                    if j > 0 {
                        assert(rest[j - 1].0 != tag);
                    }
                }
            },
        }
    }
}

/// The converse direction: a position carrying the tag with none earlier
/// is the one `tag_index` names.
pub proof fn lemma_tag_index_at(m: Seq<(u32, Seq<char>)>, tag: u32, i: int)
    requires
        0 <= i < m.len(),
        m[i].0 == tag,
        forall|j: int| 0 <= j < i ==> m[j].0 != tag,
    ensures
        tag_index(m, tag) == Some(i),
{
    lemma_tag_index(m, tag);
}

/// A message none of whose positions carries the tag has no `tag_index`.
pub proof fn lemma_tag_index_absent(m: Seq<(u32, Seq<char>)>, tag: u32)
    requires
        forall|j: int| 0 <= j < m.len() ==> m[j].0 != tag,
    ensures
        tag_index(m, tag) is None,
{
    lemma_tag_index(m, tag);
}

impl Message {
    /// Creates a message with no fields.
    pub fn new() -> (r: Message)
        ensures
            r@ == Seq::<(u32, Seq<char>)>::empty(),
    {
        let r = Message { fields: Vec::new() };
        proof {
            assert(r@ =~= Seq::<(u32, Seq<char>)>::empty());
        }
        r
    }

    /// Returns a copy of the value of the first field carrying `tag`, or
    /// `None` when the message has no such field.
    pub fn get_field(&self, tag: u32) -> (r: Option<String>)
        ensures
            match r {
                Some(v) => field_value(self@, tag) == Some(v@),
                None => field_value(self@, tag) is None,
            },
    {
        let mut i: usize = 0;
        while i < self.fields.len()
            invariant
                0 <= i <= self.fields.len(),
                forall|j: int| 0 <= j < i ==> self@[j].0 != tag,
            decreases self.fields.len() - i,
        {
            if self.fields[i].tag == tag {
                proof {
                    lemma_tag_index_at(self@, tag, i as int);
                }
                return Some(self.fields[i].value.clone());
            }
            i += 1;
        }
        proof {
            lemma_tag_index_absent(self@, tag);
        }
        None
    }

    /// Position of the first field carrying `tag`, if any.
    fn find_tag(&self, tag: u32) -> (r: Option<usize>)
        ensures
            match r {
                Some(i) => tag_index(self@, tag) == Some(i as int),
                None => tag_index(self@, tag) is None,
            },
    {
        let mut i: usize = 0;
        while i < self.fields.len()
            invariant
                0 <= i <= self.fields.len(),
                forall|j: int| 0 <= j < i ==> self@[j].0 != tag,
            decreases self.fields.len() - i,
        {
            if self.fields[i].tag == tag {
                proof {
                    lemma_tag_index_at(self@, tag, i as int);
                }
                return Some(i);
            }
            i += 1;
        }
        proof {
            lemma_tag_index_absent(self@, tag);
        }
        None
    }

    /// Sets `tag` to `value`: the first field carrying `tag` is replaced
    /// in place, or a new field is appended when the tag is absent.
    pub fn set_field(&mut self, tag: u32, value: String)
        ensures
            final(self)@ == with_field(old(self)@, tag, value@),
    {
        match self.find_tag(tag) {
            Some(i) => {
                proof {
                    lemma_tag_index(self@, tag);
                }
                self.fields.set(i, Field { tag, value });
                proof {
                    assert(self@ =~= with_field(old(self)@, tag, value@));
                }
            },
            None => {
                self.fields.push(Field { tag, value });
                proof {
                    assert(self@ =~= with_field(old(self)@, tag, value@));
                }
            },
        }
    }
}

impl Clone for Message {
    /// An owned copy with the same fields.
    fn clone(&self) -> (r: Self)
        ensures
            r@ == self@,
    {
        let mut fields: Vec<Field> = Vec::new();
        let mut i: usize = 0;
        while i < self.fields.len()
            invariant
                0 <= i <= self.fields.len(),
                fields@.len() == i,
                forall|j: int| 0 <= j < i ==> fields@[j]@ == self@[j],
            decreases self.fields.len() - i,
        {
            let f = &self.fields[i];
            fields.push(Field { tag: f.tag, value: f.value.clone() });
            i += 1;
        }
        let r = Message { fields };
        proof {
            assert(r@ =~= self@);
        }
        r
    }
}

impl PartialEq for Message {
    /// Two messages are equal when they carry the same fields in the same
    /// order.
    fn eq(&self, other: &Message) -> (r: bool) {
        if self.fields.len() != other.fields.len() {
            return false;
        }
        let mut i: usize = 0;
        while i < self.fields.len()
            invariant
                self@.len() == other@.len(),
                0 <= i <= self@.len(),
                i <= self.fields.len(),
                forall|j: int| 0 <= j < i ==> self@[j] == other@[j],
            decreases self.fields.len() - i,
        {
            if self.fields[i].tag != other.fields[i].tag {
                proof {
                    assert(self@[i as int] != other@[i as int]);
                }
                return false;
            }
            if !(self.fields[i].value == other.fields[i].value) {
                proof {
                    assert(self@[i as int] != other@[i as int]);
                }
                return false;
            }
            i += 1;
        }
        proof {
            assert(self@ =~= other@);
        }
        true
    }
}

impl vstd::std_specs::cmp::PartialEqSpecImpl for Message {
    open spec fn obeys_eq_spec() -> bool {
        true
    }

    open spec fn eq_spec(&self, other: &Message) -> bool {
        self@ == other@
    }
}

/// Setting a field makes its value readable under that tag.
pub proof fn lemma_with_field_same(m: Seq<(u32, Seq<char>)>, tag: u32, v: Seq<char>)
    ensures
        field_value(with_field(m, tag, v), tag) == Some(v),
{
    lemma_tag_index(m, tag);
    let w = with_field(m, tag, v);
    match tag_index(m, tag) {
        Some(i) => {
            lemma_tag_index_at(w, tag, i);
        },
        None => {
            lemma_tag_index_at(w, tag, m.len() as int);
        },
    }
}

/// Setting a field leaves every other tag's value unchanged.
pub proof fn lemma_with_field_other(m: Seq<(u32, Seq<char>)>, tag: u32, v: Seq<char>, other: u32)
    requires
        other != tag,
    ensures
        field_value(with_field(m, tag, v), other) == field_value(m, other),
{
    lemma_tag_index(m, tag);
    lemma_tag_index(m, other);
    let w = with_field(m, tag, v);
    match tag_index(m, other) {
        Some(k) => {
            lemma_tag_index_at(w, other, k);
        },
        None => {
            lemma_tag_index_absent(w, other);
        },
    }
}

} // verus!

//! The attributes of an object: content headers and user-defined metadata.

use vstd::prelude::*;

verus! {

/// What an attribute is about.
#[derive(Debug)]
pub enum Attribute {
    /// How the object is to be presented.
    ContentDisposition,
    /// How the object is encoded.
    ContentEncoding,
    /// The language of the object.
    ContentLanguage,
    /// The media type of the object.
    ContentType,
    /// How the object may be cached.
    CacheControl,
    /// User-defined metadata of this name.
    Metadata(String),
}

/// What an attribute is about, with the name as a sequence of characters.
pub enum AttributeView {
    ContentDisposition,
    ContentEncoding,
    ContentLanguage,
    ContentType,
    CacheControl,
    Metadata(Seq<char>),
}

impl View for Attribute {
    type V = AttributeView;

    open spec fn view(&self) -> AttributeView {
        match self {
            Attribute::ContentDisposition => AttributeView::ContentDisposition,
            Attribute::ContentEncoding => AttributeView::ContentEncoding,
            Attribute::ContentLanguage => AttributeView::ContentLanguage,
            Attribute::ContentType => AttributeView::ContentType,
            Attribute::CacheControl => AttributeView::CacheControl,
            Attribute::Metadata(name) => AttributeView::Metadata(name@),
        }
    }
}

impl Attribute {
    /// Whether two attributes are about the same.
    pub fn same(&self, other: &Attribute) -> (r: bool)
        ensures
            r == (self@ == other@),
    {
        match (self, other) {
            (Attribute::ContentDisposition, Attribute::ContentDisposition) => true,
            (Attribute::ContentEncoding, Attribute::ContentEncoding) => true,
            (Attribute::ContentLanguage, Attribute::ContentLanguage) => true,
            (Attribute::ContentType, Attribute::ContentType) => true,
            (Attribute::CacheControl, Attribute::CacheControl) => true,
            (Attribute::Metadata(a), Attribute::Metadata(b)) => *a == *b,
            _ => false,
        }
    }
}

/// The attributes of an object, each with its value.
#[derive(Debug)]
pub struct Attributes {
    entries: Vec<(Attribute, String)>,
}

impl View for Attributes {
    type V = Map<AttributeView, Seq<char>>;

    closed spec fn view(&self) -> Map<AttributeView, Seq<char>> {
        Map::new(
            |key: AttributeView| exists|i: int| holds(self.entries@, i, key),
            |key: AttributeView| self.entries@[choose|i: int| holds(self.entries@, i, key)].1@,
        )
    }
}

/// Whether the entry at `i` is that of `key`.
spec fn holds(entries: Seq<(Attribute, String)>, i: int, key: AttributeView) -> bool {
    0 <= i < entries.len() && entries[i].0@ == key
}

impl Attributes {
    /// No attribute occurs twice.
    #[verifier::type_invariant]
    spec fn wf(self) -> bool {
        forall|i: int, j: int, key: AttributeView|
            holds(self.entries@, i, key) && holds(self.entries@, j, key) ==> i == j
    }

    /// An entry gives its attribute its value.
    proof fn lemma_entry(self, i: int, key: AttributeView)
        requires
            self.wf(),
            holds(self.entries@, i, key),
        ensures
            self@.dom().contains(key),
            self@[key] == self.entries@[i].1@,
    {
        let j = choose|j: int| holds(self.entries@, j, key);
        assert(holds(self.entries@, j, key));
        assert(i == j);
    }

    /// No attributes.
    pub fn new() -> (r: Attributes)
        ensures
            r@ == Map::<AttributeView, Seq<char>>::empty(),
    {
        let r = Attributes { entries: Vec::new() };
        assert(r@ =~= Map::<AttributeView, Seq<char>>::empty());
        r
    }

    /// Where the entry of an attribute is.
    fn position(&self, key: &Attribute) -> (r: Option<usize>)
        ensures
            match r {
                Some(i) => holds(self.entries@, i as int, key@),
                None => forall|i: int| !holds(self.entries@, i, key@),
            },
    {
        let mut i: usize = 0;
        while i < self.entries.len()
            invariant
                i <= self.entries.len(),
                forall|j: int| j < i ==> !holds(self.entries@, j, key@),
            decreases self.entries.len() - i,
        {
            if self.entries[i].0.same(key) {
                return Some(i);
            }
            i = i + 1;
        }
        None
    }

    /// The value of an attribute.
    pub fn get(&self, key: &Attribute) -> (r: Option<&String>)
        ensures
            match r {
                Some(value) => self@.dom().contains(key@) && self@[key@] == value@,
                None => !self@.dom().contains(key@),
            },
    {
        proof {
            use_type_invariant(self);
        }
        match self.position(key) {
            Some(i) => {
                proof {
                    self.lemma_entry(i as int, key@);
                }
                Some(&self.entries[i].1)
            },
            None => None,
        }
    }

    /// Gives an attribute a value, in place of the value that it had. Returns that value.
    pub fn insert(&mut self, key: Attribute, value: String) -> (r: Option<String>)
        ensures
            final(self)@ == old(self)@.insert(key@, value@),
            match r {
                Some(previous) => old(self)@.dom().contains(key@) && old(self)@[key@] == previous@,
                None => !old(self)@.dom().contains(key@),
            },
    {
        proof {
            use_type_invariant(&*self);
        }
        let ghost before = *self;
        let found: Option<usize> = self.position(&key);
        let mut entries: Vec<(Attribute, String)> = Vec::new();
        std::mem::swap(&mut entries, &mut self.entries);
        let previous: Option<String> = match found {
            Some(i) => {
                let entry: (Attribute, String) = entries.remove(i);
                entries.insert(i, (key, value));
                proof {
                    assert(entries@ =~= before.entries@.update(i as int, (key, value)));
                    before.lemma_entry(i as int, key@);
                    lemma_insert(before, Attributes { entries }, i as int);
                }
                Some(entry.1)
            },
            None => {
                entries.push((key, value));
                proof {
                    lemma_insert(before, Attributes { entries }, before.entries@.len() as int);
                }
                None
            },
        };
        self.entries = entries;
        previous
    }
}

/// One entry is new or has a new value, and the others are as they were.
proof fn lemma_insert(before: Attributes, after: Attributes, i: int)
    requires
        before.wf(),
        0 <= i < after.entries@.len(),
        forall|j: int| 0 <= j < before.entries@.len() && j != i ==> before.entries@[j]
            == after.entries@[j],
        ({
            let key = after.entries@[i].0@;
            forall|j: int, k: AttributeView| #[trigger]
                holds(after.entries@, j, k) == (holds(before.entries@, j, k) || (j == i && k
                    == key))
        }),
        forall|j: int| j != i ==> !holds(before.entries@, j, after.entries@[i].0@),
    ensures
        after.wf(),
        after@ == before@.insert(after.entries@[i].0@, after.entries@[i].1@),
{
    let key = after.entries@[i].0@;
    let value = after.entries@[i].1@;
    after.lemma_entry(i, key);
    assert forall|k: AttributeView|
        #![trigger after@.dom().contains(k)]
        #![trigger before@.dom().contains(k)]
        k != key implies {
        &&& after@.dom().contains(k) == before@.dom().contains(k)
        &&& before@.dom().contains(k) ==> after@[k] == before@[k]
    } by {
        if before@.dom().contains(k) {
            let j = choose|j: int| holds(before.entries@, j, k);
            before.lemma_entry(j, k);
            assert(holds(after.entries@, j, k));
            after.lemma_entry(j, k);
        }
        if after@.dom().contains(k) {
            let j = choose|j: int| holds(after.entries@, j, k);
            assert(holds(after.entries@, j, k));
            before.lemma_entry(j, k);
        }
    }
    assert(after@.dom() =~= before@.insert(key, value).dom());
    assert(after@ =~= before@.insert(key, value));
}

} // verus!

use crate::error::ConfigError;
use crate::text::push_char;
use vstd::prelude::*;

verus! {

/// An ASCII capital letter as its small letter; any other byte as it is.
pub open spec fn lower(b: u8) -> u8 {
    if 0x41 <= b <= 0x5a {
        (b + 0x20) as u8
    } else {
        b
    }
}

/// The labels with every ASCII capital letter made small.
pub open spec fn normalized(labels: Seq<Seq<u8>>) -> Seq<Seq<u8>> {
    Seq::new(labels.len(), |i: int| Seq::new(labels[i].len(), |j: int| lower(labels[i][j])))
}

/// No label holds an ASCII capital letter.
pub open spec fn is_normal(labels: Seq<Seq<u8>>) -> bool {
    forall|i: int, j: int|
        0 <= i < labels.len() && 0 <= j < labels[i].len() ==> !(0x41 <= #[trigger] labels[i][j]
            <= 0x5a)
}

/// `name` is `zone` itself or lies below it: the labels of `zone` are the
/// last labels of `name`.
pub open spec fn in_zone(name: Seq<Seq<u8>>, zone: Seq<Seq<u8>>) -> bool {
    zone.len() <= name.len() && name.subrange(name.len() - zone.len(), name.len() as int) == zone
}

/// The name one level up: `name` without its first label. The root is its
/// own parent.
pub open spec fn parent(name: Seq<Seq<u8>>) -> Seq<Seq<u8>> {
    if name.len() == 0 {
        name
    } else {
        name.subrange(1, name.len() as int)
    }
}

/// The text of a label: each byte as the character with its number.
pub open spec fn label_text(label: Seq<u8>) -> Seq<char> {
    Seq::new(label.len(), |i: int| label[i] as char)
}

/// The text of the labels, each with a dot behind it.
pub open spec fn dotted(labels: Seq<Seq<u8>>) -> Seq<char>
    decreases labels.len(),
{
    if labels.len() == 0 {
        Seq::empty()
    } else {
        dotted(labels.drop_last()) + label_text(labels.last()).push('.')
    }
}

/// The text of a name: its labels, each with a dot behind it; a single dot
/// for the root.
pub open spec fn name_text(labels: Seq<Seq<u8>>) -> Seq<char> {
    if labels.len() == 0 {
        seq!['.']
    } else {
        dotted(labels)
    }
}

/// The labels of a vector of labels.
pub open spec fn label_views(labels: Seq<Vec<u8>>) -> Seq<Seq<u8>> {
    Seq::new(labels.len(), |i: int| labels[i]@)
}

/// Labels made small hold no capital letter, and labels without a capital
/// letter stay as they are when made small.
pub proof fn lemma_normalized_is_normal(labels: Seq<Seq<u8>>)
    ensures
        is_normal(normalized(labels)),
        is_normal(labels) ==> normalized(labels) == labels,
{
    if is_normal(labels) {
        assert forall|i: int| 0 <= i < labels.len() implies normalized(labels)[i] == labels[i] by {
            assert(normalized(labels)[i] =~= labels[i]);
        }
        assert(normalized(labels) =~= labels);
    }
}

/// A domain name as `hickory` reads it from text: its labels from the left,
/// with ASCII letters made small, and whether the text ends the name at the
/// root. `None` where `hickory` rejects the text.
pub uninterp spec fn parsed_name(text: Seq<char>) -> Option<(Seq<Seq<u8>>, bool)>;

/// The name that a text stands for, if it stands for a fully-qualified one.
pub open spec fn name_of_text(text: Seq<char>) -> Option<Seq<Seq<u8>>> {
    match parsed_name(text) {
        Some((labels, true)) => Some(normalized(labels)),
        _ => None,
    }
}

/// Calls `hickory_proto::rr::LowerName::from_str` and copies out the labels
/// (`Name::iter`) and `is_fqdn`. The contract only names the outcome: nothing
/// is claimed of which texts are accepted or of the labels found.
#[verifier::external_body]
fn parse_name(text: &str) -> (parts: Option<(Vec<Vec<u8>>, bool)>)
    ensures
        match parts {
            Some((labels, fqdn)) => parsed_name(text@) == Some((label_views(labels@), fqdn)),
            None => parsed_name(text@) is None,
        },
{
    match text.parse::<hickory_server::proto::rr::LowerName>() {
        Ok(name) => Some((name.iter().map(|label| label.to_vec()).collect(), name.is_fqdn())),
        Err(_) => None,
    }
}

/// A fully-qualified domain name: its labels from the left, the root left
/// out, with ASCII letters made small. Two names are equal when their labels
/// are.
#[derive(Debug, PartialEq, Eq, Hash)]
pub struct DomainName {
    labels: Vec<Vec<u8>>,
}

impl View for DomainName {
    type V = Seq<Seq<u8>>;

    closed spec fn view(&self) -> Seq<Seq<u8>> {
        label_views(self.labels@)
    }
}

fn lower_label(label: &Vec<u8>) -> (out: Vec<u8>)
    ensures
        out@ == Seq::new(label@.len(), |j: int| lower(label@[j])),
{
    let mut out: Vec<u8> = Vec::new();
    let mut j: usize = 0;
    while j < label.len()
        invariant
            0 <= j <= label.len(),
            out@ == Seq::new(j as nat, |k: int| lower(label@[k])),
        decreases label.len() - j,
    {
        let b: u8 = label[j];
        let small: u8 = if 0x41 <= b && b <= 0x5a {
            b + 0x20
        } else {
            b
        };
        out.push(small);
        assert(out@ =~= Seq::new((j + 1) as nat, |k: int| lower(label@[k])));
        j += 1;
    }
    out
}

fn copy_label(label: &Vec<u8>) -> (out: Vec<u8>)
    ensures
        out@ == label@,
{
    let mut out: Vec<u8> = Vec::new();
    let mut j: usize = 0;
    while j < label.len()
        invariant
            0 <= j <= label.len(),
            out@ == label@.subrange(0, j as int),
        decreases label.len() - j,
    {
        out.push(label[j]);
        assert(out@ =~= label@.subrange(0, j + 1));
        j += 1;
    }
    assert(out@ =~= label@);
    out
}

fn same_label(a: &Vec<u8>, b: &Vec<u8>) -> (same: bool)
    ensures
        same == (a@ == b@),
{
    if a.len() != b.len() {
        return false;
    }
    let mut j: usize = 0;
    while j < a.len()
        invariant
            0 <= j <= a.len(),
            a.len() == b.len(),
            forall|k: int| 0 <= k < j ==> a@[k] == b@[k],
        decreases a.len() - j,
    {
        if a[j] != b[j] {
            return false;
        }
        j += 1;
    }
    assert(a@ =~= b@);
    true
}

impl Clone for DomainName {
    fn clone(&self) -> (copy: Self)
        ensures
            copy@ == self@,
    {
        proof {
            use_type_invariant(self);
        }
        let mut labels: Vec<Vec<u8>> = Vec::new();
        let mut i: usize = 0;
        while i < self.labels.len()
            invariant
                0 <= i <= self.labels.len(),
                labels@.len() == i,
                label_views(labels@) == label_views(self.labels@).subrange(0, i as int),
            decreases self.labels.len() - i,
        {
            let label: Vec<u8> = copy_label(&self.labels[i]);
            labels.push(label);
            assert(label_views(labels@) =~= label_views(self.labels@).subrange(0, i + 1));
            i += 1;
        }
        assert(label_views(labels@) =~= label_views(self.labels@));
        DomainName { labels }
    }
}

impl DomainName {
    #[verifier::type_invariant]
    spec fn inv(self) -> bool {
        is_normal(label_views(self.labels@))
    }

    /// The labels hold no ASCII capital letter.
    pub open spec fn wf(self) -> bool {
        is_normal(self@)
    }

    /// The root, which has no label.
    pub fn root() -> (name: Self)
        ensures
            name@ == Seq::<Seq<u8>>::empty(),
    {
        let labels: Vec<Vec<u8>> = Vec::new();
        assert(label_views(labels@) =~= Seq::<Seq<u8>>::empty());
        DomainName { labels }
    }

    /// The name with these labels, from the left, ASCII capital letters made
    /// small.
    pub fn from_labels(labels: Vec<Vec<u8>>) -> (name: Self)
        ensures
            name@ == normalized(label_views(labels@)),
            name.wf(),
    {
        let mut out: Vec<Vec<u8>> = Vec::new();
        let mut i: usize = 0;
        while i < labels.len()
            invariant
                0 <= i <= labels.len(),
                out@.len() == i,
                label_views(out@) == normalized(label_views(labels@)).subrange(0, i as int),
            decreases labels.len() - i,
        {
            let label: Vec<u8> = lower_label(&labels[i]);
            out.push(label);
            proof {
                let done = label_views(out@);
                let goal = normalized(label_views(labels@));
                assert(goal.len() == labels@.len());
                assert(done.len() == i + 1);
                assert(done[i as int] =~= goal[i as int]);
                assert forall|k: int| 0 <= k < i implies done[k] == goal[k] by {
                    assert(goal.subrange(0, i as int)[k] == goal[k]);
                }
                assert(done =~= goal.subrange(0, i + 1));
            }
            i += 1;
        }
        proof {
            assert(label_views(out@) =~= normalized(label_views(labels@)));
            lemma_normalized_is_normal(label_views(labels@));
        }
        DomainName { labels: out }
    }

    /// Reads a fully-qualified name from its text, such as `example.com.`.
    /// A text that does not end the name at the root is rejected.
    pub fn parse(text: &str) -> (name: Result<DomainName, ConfigError>)
        ensures
            match name_of_text(text@) {
                Some(labels) => name is Ok && name->Ok_0@ == labels,
                None => name == Err::<DomainName, ConfigError>(ConfigError::Domain),
            },
    {
        match parse_name(text) {
            Some((labels, true)) => Ok(Self::from_labels(labels)),
            _ => Err(ConfigError::Domain),
        }
    }

    /// Whether the two names have the same labels.
    pub fn same(&self, other: &DomainName) -> (same: bool)
        ensures
            same == (self@ == other@),
    {
        if self.labels.len() != other.labels.len() {
            assert(self@.len() != other@.len());
            return false;
        }
        let mut i: usize = 0;
        while i < self.labels.len()
            invariant
                0 <= i <= self.labels.len(),
                self.labels.len() == other.labels.len(),
                forall|k: int| 0 <= k < i ==> self@[k] == other@[k],
            decreases self.labels.len() - i,
        {
            if !same_label(&self.labels[i], &other.labels[i]) {
                assert(self@[i as int] != other@[i as int]);
                return false;
            }
            i += 1;
        }
        assert(self@ =~= other@);
        true
    }

    /// Whether `name` is this zone's own name or lies below it.
    pub fn zone_of(&self, name: &DomainName) -> (inside: bool)
        ensures
            inside == in_zone(name@, self@),
    {
        let zone_len: usize = self.labels.len();
        let name_len: usize = name.labels.len();
        if zone_len > name_len {
            return false;
        }
        let skip: usize = name_len - zone_len;
        let mut i: usize = 0;
        while i < zone_len
            invariant
                0 <= i <= zone_len,
                zone_len == self.labels.len(),
                name_len == name.labels.len(),
                skip + zone_len == name_len,
                forall|k: int| 0 <= k < i ==> self@[k] == name@[skip + k],
            decreases zone_len - i,
        {
            if !same_label(&self.labels[i], &name.labels[skip + i]) {
                assert(name@.subrange(skip as int, name_len as int)[i as int] != self@[i as int]);
                return false;
            }
            i += 1;
        }
        assert(name@.subrange(skip as int, name_len as int) =~= self@);
        true
    }

    /// The name one level up; the root is its own parent.
    pub fn base_name(&self) -> (up: DomainName)
        ensures
            up@ == parent(self@),
    {
        proof {
            use_type_invariant(self);
        }
        let mut labels: Vec<Vec<u8>> = Vec::new();
        let mut i: usize = 1;
        if self.labels.len() == 0 {
            assert(label_views(labels@) =~= parent(self@));
            return DomainName { labels };
        }
        while i < self.labels.len()
            invariant
                1 <= i <= self.labels.len(),
                labels@.len() == i - 1,
                label_views(labels@) == self@.subrange(1, i as int),
            decreases self.labels.len() - i,
        {
            let label: Vec<u8> = copy_label(&self.labels[i]);
            labels.push(label);
            assert(label_views(labels@) =~= self@.subrange(1, i + 1));
            i += 1;
        }
        DomainName { labels }
    }

    /// The name as text, for a reader: `www.example.com.`.
    pub fn to_string(&self) -> (text: String)
        ensures
            text@ == name_text(self@),
    {
        let mut text = String::new();
        if self.labels.len() == 0 {
            push_char(&mut text, '.');
            assert(text@ =~= seq!['.']);
            return text;
        }
        let mut i: usize = 0;
        proof {
            assert(self@.take(0) =~= Seq::empty());
        }
        while i < self.labels.len()
            invariant
                0 <= i <= self.labels.len(),
                text@ == dotted(self@.take(i as int)),
            decreases self.labels.len() - i,
        {
            let label: &Vec<u8> = &self.labels[i];
            let ghost before = text@;
            let mut j: usize = 0;
            while j < label.len()
                invariant
                    0 <= j <= label.len(),
                    text@ == before + label_text(label@).take(j as int),
                decreases label.len() - j,
            {
                push_char(&mut text, label[j] as char);
                assert(text@ =~= before + label_text(label@).take(j + 1));
                j += 1;
            }
            push_char(&mut text, '.');
            proof {
                assert(label_text(label@).take(label@.len() as int) =~= label_text(label@));
                assert(self@.take(i + 1).drop_last() =~= self@.take(i as int));
                assert(self@.take(i + 1).last() == label@);
                assert(text@ =~= dotted(self@.take(i + 1)));
            }
            i += 1;
        }
        proof {
            assert(self@.take(self.labels@.len() as int) =~= self@);
        }
        text
    }

    /// Whether this is the root.
    pub fn is_root(&self) -> (root: bool)
        ensures
            root == (self@.len() == 0),
    {
        self.labels.len() == 0
    }

    /// The number of labels.
    pub fn num_labels(&self) -> (n: usize)
        ensures
            n == self@.len(),
    {
        self.labels.len()
    }

    /// The label at position `i` from the left.
    pub fn label(&self, i: usize) -> (label: Option<Vec<u8>>)
        ensures
            i < self@.len() ==> label is Some && label->0@ == self@[i as int],
            i >= self@.len() ==> label is None,
    {
        if i < self.labels.len() {
            Some(copy_label(&self.labels[i]))
        } else {
            None
        }
    }
}

} // verus!

//! Names: namespaced identifiers, and the names this library gives to the
//! configured dimensions.

use vstd::prelude::*;
use vstd::string::StringExecFns;

verus! {

/// A namespaced identifier such as `minecraft:plains`.
#[derive(Clone, PartialEq, Eq, Debug)]
pub struct Ident {
    pub namespace: String,
    pub path: String,
}

/// The index of a dimension in the server's configuration.
#[derive(Clone, Copy, PartialEq, Eq, PartialOrd, Ord, Hash, Default, Debug, Structural)]
pub struct DimensionId(pub u16);

/// The name of a dimension as clients know it.
///
/// The dummy dimension is no configured dimension: it exists so that a client
/// can be bounced through it on respawn. Being a variant of its own, its name
/// differs from that of every configured dimension.
#[derive(Clone, Copy, PartialEq, Eq, Debug, Structural)]
pub enum DimensionName {
    /// `valence:dimension_N` for the configured dimension `N`.
    Dimension(DimensionId),
    /// `valence:dummy_dimension`.
    Dummy,
}

/// The name of a dimension's type, `valence:dimension_type_N`.
#[derive(Clone, Copy, PartialEq, Eq, Debug, Structural)]
pub struct DimensionTypeName(pub DimensionId);

/// What an [`Ident`] is in contracts: its namespace and its path.
pub struct IdentView {
    pub namespace: Seq<char>,
    pub path: Seq<char>,
}

impl View for Ident {
    type V = IdentView;

    open spec fn view(&self) -> IdentView {
        IdentView { namespace: self.namespace@, path: self.path@ }
    }
}

impl Ident {
    /// The identifier `namespace:path`.
    pub fn new(namespace: &str, path: &str) -> (r: Ident)
        ensures
            r@ == (IdentView { namespace: namespace@, path: path@ }),
    {
        Ident { namespace: namespace.to_owned(), path: path.to_owned() }
    }

    /// Whether the identifier is `namespace:path`.
    pub fn is(&self, namespace: &str, path: &str) -> (r: bool)
        ensures
            r == (self@ == (IdentView { namespace: namespace@, path: path@ })),
    {
        let ns: String = namespace.to_owned();
        let p: String = path.to_owned();
        self.namespace == ns && self.path == p
    }
}

/// The character of the digit `d`.
pub open spec fn digit_char(d: nat) -> char {
    if d == 0 {
        '0'
    } else if d == 1 {
        '1'
    } else if d == 2 {
        '2'
    } else if d == 3 {
        '3'
    } else if d == 4 {
        '4'
    } else if d == 5 {
        '5'
    } else if d == 6 {
        '6'
    } else if d == 7 {
        '7'
    } else if d == 8 {
        '8'
    } else {
        '9'
    }
}

/// The decimal digits of `n`, without leading zeros.
pub open spec fn decimal(n: nat) -> Seq<char>
    decreases n,
{
    if n < 10 {
        seq![digit_char(n)]
    } else {
        decimal(n / 10).push(digit_char(n % 10))
    }
}

/// The digit `d` as text.
fn digit_text(d: u16) -> (r: &'static str)
    requires
        d < 10,
    ensures
        r@ == seq![digit_char(d as nat)],
{
    proof {
        reveal_strlit("0");
        reveal_strlit("1");
        reveal_strlit("2");
        reveal_strlit("3");
        reveal_strlit("4");
        reveal_strlit("5");
        reveal_strlit("6");
        reveal_strlit("7");
        reveal_strlit("8");
        reveal_strlit("9");
    }
    let r = if d == 0 {
        "0"
    } else if d == 1 {
        "1"
    } else if d == 2 {
        "2"
    } else if d == 3 {
        "3"
    } else if d == 4 {
        "4"
    } else if d == 5 {
        "5"
    } else if d == 6 {
        "6"
    } else if d == 7 {
        "7"
    } else if d == 8 {
        "8"
    } else {
        "9"
    };
    assert(r@ =~= seq![digit_char(d as nat)]);
    r
}

/// Appends the decimal digits of `n` to `s`.
fn append_decimal(s: &mut String, n: u16)
    ensures
        final(s)@ == old(s)@ + decimal(n as nat),
    decreases n,
{
    if n >= 10 {
        append_decimal(s, n / 10);
    }
    s.append(digit_text(n % 10));
    assert(s@ =~= old(s)@ + decimal(n as nat));
}

impl DimensionName {
    /// The name as text.
    pub open spec fn text(self) -> Seq<char> {
        match self {
            DimensionName::Dimension(id) => "valence:dimension_"@ + decimal(id.0 as nat),
            DimensionName::Dummy => "valence:dummy_dimension"@,
        }
    }

    /// The name as text.
    pub fn to_text(self) -> (r: String)
        ensures
            r@ == self.text(),
    {
        match self {
            DimensionName::Dimension(id) => {
                let mut s: String = "valence:dimension_".to_owned();
                append_decimal(&mut s, id.0);
                s
            },
            DimensionName::Dummy => "valence:dummy_dimension".to_owned(),
        }
    }
}

impl DimensionTypeName {
    /// The name as text.
    pub open spec fn text(self) -> Seq<char> {
        "valence:dimension_type_"@ + decimal(self.0.0 as nat)
    }

    /// The name as text.
    pub fn to_text(self) -> (r: String)
        ensures
            r@ == self.text(),
    {
        let mut s: String = "valence:dimension_type_".to_owned();
        append_decimal(&mut s, self.0.0);
        s
    }
}

/// The name of the dummy dimension is the name of no configured dimension.
pub proof fn law_dummy_dimension_is_distinct(id: DimensionId)
    ensures
        DimensionName::Dummy.text() != DimensionName::Dimension(id).text(),
{
    reveal_strlit("valence:dimension_");
    reveal_strlit("valence:dummy_dimension");
    let dummy = DimensionName::Dummy.text();
    let named = DimensionName::Dimension(id).text();
    assert(dummy[9] == 'u');
    assert(named[9] == "valence:dimension_"@[9]);
    assert(named[9] == 'i');
}

/// Different dimensions have different names: the digits of a number say
/// which number it is.
pub proof fn law_dimension_names_are_distinct(a: DimensionId, b: DimensionId)
    requires
        a != b,
    ensures
        DimensionName::Dimension(a).text() != DimensionName::Dimension(b).text(),
        DimensionTypeName(a).text() != DimensionTypeName(b).text(),
{
    lemma_decimal_injective(a.0 as nat, b.0 as nat);
    let da = decimal(a.0 as nat);
    let db = decimal(b.0 as nat);
    let p = "valence:dimension_"@;
    let q = "valence:dimension_type_"@;
    if p + da == p + db {
        assert(da =~= (p + da).subrange(p.len() as int, (p + da).len() as int));
        assert(db =~= (p + db).subrange(p.len() as int, (p + db).len() as int));
    }
    if q + da == q + db {
        assert(da =~= (q + da).subrange(q.len() as int, (q + da).len() as int));
        assert(db =~= (q + db).subrange(q.len() as int, (q + db).len() as int));
    }
}

/// Numbers with the same digits are the same number.
pub proof fn lemma_decimal_injective(a: nat, b: nat)
    ensures
        decimal(a) == decimal(b) ==> a == b,
        decimal(a).len() >= 1,
    decreases a + b,
{
    if decimal(a) == decimal(b) {
        if a < 10 && b < 10 {
            assert(decimal(a)[0] == decimal(b)[0]);
        } else if a >= 10 && b >= 10 {
            lemma_decimal_injective(a / 10, b / 10);
            let da = decimal(a / 10);
            let db = decimal(b / 10);
            assert(da =~= decimal(a).drop_last());
            assert(db =~= decimal(b).drop_last());
            assert(decimal(a).last() == digit_char(a % 10));
            assert(decimal(b).last() == digit_char(b % 10));
            assert(a % 10 == b % 10);
        } else if a >= 10 {
            lemma_decimal_injective(a / 10, 0);
            assert(decimal(a).len() >= 2);
        } else {
            lemma_decimal_injective(b / 10, 0);
            assert(decimal(b).len() >= 2);
        }
    }
    if a >= 10 {
        lemma_decimal_injective(a / 10, 0);
    }
}

} // verus!

//! RGB colors, their packed protocol value, and the named color table.
use vstd::prelude::*;

verus! {

/// A color as three 8-bit channels.
#[derive(Clone, Copy, Debug, PartialEq, Eq, Structural)]
pub struct Rgb {
    pub red: u8,
    pub green: u8,
    pub blue: u8,
}

/// The packed value of a color: red in bits 16..24, green in 8..16, blue in 0..8.
pub open spec fn packed(c: Rgb) -> int {
    c.red as int * 0x10000 + c.green as int * 0x100 + c.blue as int
}

/// Packs a color into the single 24-bit value that the lighting protocol takes.
pub fn pack(c: Rgb) -> (r: u32)
    ensures
        r as int == packed(c),
        r == ((c.red as u32) << 16u32) | ((c.green as u32) << 8u32) | (c.blue as u32),
        r < 0x100_0000,
{
    let red: u32 = c.red as u32;
    let green: u32 = c.green as u32;
    let blue: u32 = c.blue as u32;
    let r: u32 = (red << 16u32) | (green << 8u32) | blue;
    assert(r == red * 0x10000 + green * 0x100 + blue && r < 0x100_0000) by (bit_vector)
        requires
            red < 0x100,
            green < 0x100,
            blue < 0x100,
            r == (red << 16u32) | (green << 8u32) | blue,
    ;
    r
}

/// A named color of a table.
struct ColorEntry {
    name: String,
    rgb: Rgb,
}

/// The table of named colors: canonical lowercase names, each with its color,
/// in a fixed order that numbered listings follow.
pub struct ColorTable {
    entries: Vec<ColorEntry>,
}

impl View for ColorTable {
    type V = Seq<(Seq<char>, Rgb)>;

    closed spec fn view(&self) -> Seq<(Seq<char>, Rgb)> {
        self.entries@.map_values(|e: ColorEntry| (e.name@, e.rgb))
    }
}

/// The colors a table starts with, in listing order.
pub open spec fn standard_colors() -> Seq<(Seq<char>, Rgb)> {
    seq![
        ("white"@, Rgb { red: 255, green: 255, blue: 255 }),
        ("red"@, Rgb { red: 255, green: 0, blue: 0 }),
        ("green"@, Rgb { red: 0, green: 255, blue: 0 }),
        ("blue"@, Rgb { red: 0, green: 0, blue: 255 }),
        ("yellow"@, Rgb { red: 255, green: 255, blue: 0 }),
        ("magenta"@, Rgb { red: 255, green: 0, blue: 255 }),
        ("cyan"@, Rgb { red: 0, green: 255, blue: 255 }),
    ]
}

/// No name occurs twice in the table.
pub open spec fn names_unique(t: Seq<(Seq<char>, Rgb)>) -> bool {
    forall|i: int, j: int| 0 <= i < t.len() && 0 <= j < t.len() && i != j ==> t[i].0 != t[j].0
}

/// The color of the first entry named `name`, if any.
pub open spec fn lookup(t: Seq<(Seq<char>, Rgb)>, name: Seq<char>) -> Option<Rgb>
    decreases t.len(),
{
    if t.len() == 0 {
        None
    } else if t[0].0 == name {
        Some(t[0].1)
    } else {
        lookup(t.drop_first(), name)
    }
}

/// What `str::to_lowercase` makes of a string.
pub uninterp spec fn lower_of(s: Seq<char>) -> Seq<char>;

/// Relies on `str::to_lowercase`: its result depends on the characters alone.
#[verifier::external_body]
pub(crate) fn lowercase(s: &str) -> (r: String)
    ensures
        r@ == lower_of(s@),
{
    s.to_lowercase()
}

/// The decimal digit `d`.
pub open spec fn digit(d: nat) -> char {
    seq!['0', '1', '2', '3', '4', '5', '6', '7', '8', '9'][d as int]
}

/// The decimal form of `n`, without sign or leading zeros.
pub open spec fn decimal(n: nat) -> Seq<char>
    decreases n,
{
    if n < 10 {
        seq![digit(n)]
    } else {
        decimal(n / 10).push(digit(n % 10))
    }
}

/// The first `k` lines of the numbered listing: `"<i>. <name>"` for each,
/// numbered from one, each ended by a newline.
pub open spec fn listing_lines(t: Seq<(Seq<char>, Rgb)>, k: nat) -> Seq<char>
    decreases k,
{
    if k == 0 || k > t.len() {
        Seq::empty()
    } else {
        listing_lines(t, (k - 1) as nat) + decimal(k) + ". "@ + t[k - 1].0 + "\n"@
    }
}

/// The reply that lists all names: a newline, then one numbered line per name.
pub open spec fn listing_text(t: Seq<(Seq<char>, Rgb)>) -> Seq<char> {
    "\n"@ + listing_lines(t, t.len())
}

/// Relies on the `Display` of `usize` (through `to_string`): plain decimal digits.
#[verifier::external_body]
fn decimal_text(n: usize) -> (r: String)
    ensures
        r@ == decimal(n as nat),
{
    n.to_string()
}

impl ColorTable {
    /// The table of the seven standard colors.
    pub fn standard() -> (t: ColorTable)
        ensures
            t@ == standard_colors(),
            names_unique(t@),
    {
        let mut entries: Vec<ColorEntry> = Vec::new();
        entries.push(ColorEntry { name: String::from_str("white"), rgb: Rgb { red: 255, green: 255, blue: 255 } });
        entries.push(ColorEntry { name: String::from_str("red"), rgb: Rgb { red: 255, green: 0, blue: 0 } });
        entries.push(ColorEntry { name: String::from_str("green"), rgb: Rgb { red: 0, green: 255, blue: 0 } });
        entries.push(ColorEntry { name: String::from_str("blue"), rgb: Rgb { red: 0, green: 0, blue: 255 } });
        entries.push(ColorEntry { name: String::from_str("yellow"), rgb: Rgb { red: 255, green: 255, blue: 0 } });
        entries.push(ColorEntry { name: String::from_str("magenta"), rgb: Rgb { red: 255, green: 0, blue: 255 } });
        entries.push(ColorEntry { name: String::from_str("cyan"), rgb: Rgb { red: 0, green: 255, blue: 255 } });
        let t = ColorTable { entries };
        assert(t@ =~= standard_colors());
        proof {
            lemma_standard_names_unique();
        }
        t
    }

    /// The number of named colors.
    pub fn len(&self) -> (n: usize)
        ensures
            n == self@.len(),
    {
        self.entries.len()
    }

    /// Looks up a canonical name exactly as given.
    pub fn resolve_canonical(&self, name: &str) -> (r: Option<Rgb>)
        ensures
            r == lookup(self@, name@),
    {
        let key = String::from_str(name);
        let n = self.entries.len();
        let mut i: usize = 0;
        assert(self@.subrange(0, n as int) =~= self@);
        while i < n
            invariant
                n == self@.len(),
                0 <= i <= n,
                key@ == name@,
                lookup(self@, name@) == lookup(self@.subrange(i as int, n as int), name@),
            decreases n - i,
        {
            proof {
                let rest = self@.subrange(i as int, n as int);
                assert(rest[0] == self@[i as int]);
                assert(rest.drop_first() =~= self@.subrange(i + 1, n as int));
            }
            if self.entries[i].name == key {
                return Some(self.entries[i].rgb);
            }
            i = i + 1;
        }
        None
    }

    /// The numbered listing of all names: entry `i` is `(i + 1, name i)`.
    pub fn enumerate(&self) -> (r: Vec<(usize, String)>)
        ensures
            r@.len() == self@.len(),
            forall|i: int| 0 <= i < r@.len() ==> r@[i].0 == i + 1 && r@[i].1@ == self@[i].0,
    {
        let n = self.entries.len();
        let mut r: Vec<(usize, String)> = Vec::new();
        let mut i: usize = 0;
        while i < n
            invariant
                n == self@.len(),
                0 <= i <= n,
                r@.len() == i,
                forall|j: int| 0 <= j < i ==> r@[j].0 == j + 1 && r@[j].1@ == self@[j].0,
            decreases n - i,
        {
            r.push((i + 1, self.entries[i].name.clone()));
            i = i + 1;
        }
        r
    }

    /// The text of the numbered listing, as the reply to a request for the names.
    pub fn listing(&self) -> (r: String)
        ensures
            r@ == listing_text(self@),
    {
        let n = self.entries.len();
        let mut r = String::from_str("\n");
        let mut i: usize = 0;
        while i < n
            invariant
                n == self@.len(),
                0 <= i <= n,
                r@ == "\n"@ + listing_lines(self@, i as nat),
            decreases n - i,
        {
            let number = decimal_text(i + 1);
            r.append(number.as_str());
            r.append(". ");
            r.append(self.entries[i].name.as_str());
            r.append("\n");
            assert(r@ =~= "\n"@ + listing_lines(self@, (i + 1) as nat));
            i = i + 1;
        }
        r
    }

    /// Looks up a name case-insensitively: the name is lowercased first.
    pub fn resolve(&self, name: &str) -> (r: Option<Rgb>)
        ensures
            r == lookup(self@, lower_of(name@)),
    {
        let lowered = lowercase(name);
        self.resolve_canonical(lowered.as_str())
    }
}

/// In a table without repeated names, each name resolves to its own color.
pub proof fn lemma_lookup_finds_entry(t: Seq<(Seq<char>, Rgb)>, i: int)
    requires
        names_unique(t),
        0 <= i < t.len(),
    ensures
        lookup(t, t[i].0) == Some(t[i].1),
    decreases i,
{
    if i > 0 {
        let rest = t.drop_first();
        assert(t[0].0 != t[i].0);
        assert(rest[i - 1] == t[i]);
        assert(names_unique(rest)) by {
            assert forall|a: int, b: int|
                0 <= a < rest.len() && 0 <= b < rest.len() && a != b implies rest[a].0
                != rest[b].0 by {
                assert(rest[a] == t[a + 1] && rest[b] == t[b + 1]);
            }
        }
        lemma_lookup_finds_entry(rest, i - 1);
    }
}

/// Case does not matter to resolution: inputs with the same lowercase form
/// resolve alike, and an input whose lowercase form is a recognized name
/// resolves to that name's color.
pub proof fn lemma_resolve_ignores_case(t: Seq<(Seq<char>, Rgb)>, a: Seq<char>, b: Seq<char>)
    requires
        names_unique(t),
        lower_of(a) == lower_of(b),
    ensures
        lookup(t, lower_of(a)) == lookup(t, lower_of(b)),
        forall|i: int|
            0 <= i < t.len() && t[i].0 == lower_of(a) ==> lookup(t, lower_of(b)) == Some(t[i].1),
{
    assert forall|i: int| 0 <= i < t.len() && t[i].0 == lower_of(a) implies lookup(
        t,
        lower_of(b),
    ) == Some(t[i].1) by {
        lemma_lookup_finds_entry(t, i);
    }
}

proof fn lemma_standard_names_unique()
    ensures
        names_unique(standard_colors()),
{
    reveal_strlit("white");
    reveal_strlit("red");
    reveal_strlit("green");
    reveal_strlit("blue");
    reveal_strlit("yellow");
    reveal_strlit("magenta");
    reveal_strlit("cyan");
    let t = standard_colors();
    assert(t[0].0[0] == 'w' && t[1].0[0] == 'r' && t[2].0[0] == 'g' && t[3].0[0] == 'b');
    assert(t[4].0[0] == 'y' && t[5].0[0] == 'm' && t[6].0[0] == 'c');
}

} // verus!

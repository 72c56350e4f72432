//! Manufacturer guess from the leading bytes of a tag identifier.

use vstd::prelude::*;

use crate::text::{chars_of, remove_blanks, starts_with, without_blanks};

verus! {

/// A table of `(prefix, label)` entries as plain sequences.
pub open spec fn table_view(table: Seq<(&str, &str)>) -> Seq<(Seq<char>, Seq<char>)> {
    table.map_values(|e: (&str, &str)| (e.0@, e.1@))
}

/// The position of the first entry whose prefix starts `id`, or the table's
/// length when none does.
pub open spec fn prefix_match_index(table: Seq<(Seq<char>, Seq<char>)>, id: Seq<char>) -> nat
    decreases table.len(),
{
    if table.len() == 0 {
        0
    } else if table[0].0.is_prefix_of(id) {
        0
    } else {
        1 + prefix_match_index(table.drop_first(), id)
    }
}

/// The label that a table gives to a hex identifier: that of the first
/// entry whose prefix starts the identifier with its whitespace removed, or
/// `Unknown`.
pub open spec fn manufacturer_of(table: Seq<(Seq<char>, Seq<char>)>, hex: Seq<char>) -> Seq<char> {
    let i = prefix_match_index(table, without_blanks(hex));
    if i < table.len() {
        table[i as int].1
    } else {
        "Unknown"@
    }
}

/// `a` is a proper prefix of `b`: an entry for `a` placed before one for
/// `b` would win on every identifier that `b` matches.
pub open spec fn shadows(a: Seq<char>, b: Seq<char>) -> bool {
    a.len() < b.len() && a.is_prefix_of(b)
}

/// No entry's prefix is a proper prefix of a later entry's: a shorter,
/// more general pattern never hides a longer, more specific one.
pub open spec fn most_specific_first(table: Seq<(Seq<char>, Seq<char>)>) -> bool {
    forall|i: int, j: int|
        0 <= i < j < table.len() ==> !#[trigger] shadows(table[i].0, table[j].0)
}

/// The manufacturers that the first bytes of a UID name, most specific first.
pub open spec fn known_manufacturers() -> Seq<(Seq<char>, Seq<char>)> {
    seq![
        ("E002"@, "STMicroelectronics (ISO 15693)"@),
        ("E004"@, "NXP Semiconductors (ISO 15693)"@),
        ("E007"@, "Texas Instruments (ISO 15693)"@),
        ("E016"@, "EM Microelectronic (ISO 15693)"@),
        ("E0"@, "ISO 15693 tag"@),
        ("01"@, "Motorola"@),
        ("02"@, "STMicroelectronics"@),
        ("03"@, "Hitachi"@),
        ("04"@, "NXP Semiconductors"@),
        ("05"@, "Infineon Technologies"@),
        ("06"@, "Cylink"@),
        ("07"@, "Texas Instruments"@),
        ("08"@, "Fujitsu"@),
        ("09"@, "Matsushita"@),
        ("0A"@, "NEC"@),
        ("0B"@, "Oki Electric"@),
        ("0C"@, "Toshiba"@),
        ("0D"@, "Mitsubishi Electric"@),
        ("0E"@, "Samsung Electronics"@),
        ("0F"@, "Hynix"@),
        ("16"@, "EM Microelectronic-Marin"@),
    ]
}

/// The table that [`guess_manufacturer`] reads.
pub fn manufacturer_table() -> (t: Vec<(&'static str, &'static str)>)
    ensures
        table_view(t@) == known_manufacturers(),
{
    let t = vec![
        ("E002", "STMicroelectronics (ISO 15693)"),
        ("E004", "NXP Semiconductors (ISO 15693)"),
        ("E007", "Texas Instruments (ISO 15693)"),
        ("E016", "EM Microelectronic (ISO 15693)"),
        ("E0", "ISO 15693 tag"),
        ("01", "Motorola"),
        ("02", "STMicroelectronics"),
        ("03", "Hitachi"),
        ("04", "NXP Semiconductors"),
        ("05", "Infineon Technologies"),
        ("06", "Cylink"),
        ("07", "Texas Instruments"),
        ("08", "Fujitsu"),
        ("09", "Matsushita"),
        ("0A", "NEC"),
        ("0B", "Oki Electric"),
        ("0C", "Toshiba"),
        ("0D", "Mitsubishi Electric"),
        ("0E", "Samsung Electronics"),
        ("0F", "Hynix"),
        ("16", "EM Microelectronic-Marin"),
    ];
    assert(table_view(t@) =~= known_manufacturers());
    t
}

/// The label of the first entry of `table` whose prefix starts `hex` (its
/// whitespace removed), or `Unknown` when none does.
pub fn guess_manufacturer_in(table: &Vec<(&str, &str)>, hex: &str) -> (r: String)
    ensures
        r@ == manufacturer_of(table_view(table@), hex@),
{
    let ghost tv = table_view(table@);
    let chars = chars_of(hex);
    let id = remove_blanks(&chars);
    let mut k: usize = 0;
    assert(tv.subrange(0, tv.len() as int) =~= tv);
    while k < table.len()
        invariant
            tv == table_view(table@),
            id@ == without_blanks(hex@),
            k <= table@.len(),
            k + prefix_match_index(tv.subrange(k as int, tv.len() as int), id@)
                == prefix_match_index(tv, id@),
        decreases table@.len() - k,
    {
        let ghost rest = tv.subrange(k as int, tv.len() as int);
        assert(rest[0] == tv[k as int]);
        if starts_with(&id, table[k].0) {
            return table[k].1.to_owned();
        }
        assert(rest.drop_first() =~= tv.subrange(k + 1, tv.len() as int));
        k += 1;
    }
    "Unknown".to_owned()
}

/// The manufacturer that the built-in table gives to a hex identifier.
pub fn guess_manufacturer(hex: &str) -> (r: String)
    ensures
        r@ == manufacturer_of(known_manufacturers(), hex@),
{
    let table = manufacturer_table();
    guess_manufacturer_in(&table, hex)
}

/// Whether no entry of `table` hides a later, more specific one.
pub fn is_most_specific_first(table: &Vec<(&str, &str)>) -> (r: bool)
    ensures
        r == most_specific_first(table_view(table@)),
{
    let ghost tv = table_view(table@);
    let n = table.len();
    let mut i: usize = 0;
    while i < n
        invariant
            n == table@.len(),
            tv == table_view(table@),
            i <= n,
            forall|x: int, y: int| 0 <= x < i && x < y < n ==> !#[trigger] shadows(tv[x].0, tv[y].0),
        decreases n - i,
    {
        let a = chars_of(table[i].0);
        let mut j: usize = i + 1;
        while j < n
            invariant
                n == table@.len(),
                tv == table_view(table@),
                i < n,
                i < j <= n,
                a@ == tv[i as int].0,
                forall|x: int, y: int| 0 <= x < i && x < y < n ==> !#[trigger] shadows(tv[x].0, tv[y].0),
                forall|y: int| i < y < j ==> !#[trigger] shadows(tv[i as int].0, tv[y].0),
            decreases n - j,
        {
            let b = chars_of(table[j].0);
            if a.len() < b.len() && starts_with(&b, table[i].0) {
                assert(shadows(tv[i as int].0, tv[j as int].0));
                return false;
            }
            j += 1;
        }
        i += 1;
    }
    true
}

proof fn lemma_prefix_match_index(table: Seq<(Seq<char>, Seq<char>)>, id: Seq<char>)
    ensures
        prefix_match_index(table, id) <= table.len(),
        prefix_match_index(table, id) < table.len() ==> table[prefix_match_index(
            table,
            id,
        ) as int].0.is_prefix_of(id),
        forall|j: int| 0 <= j < prefix_match_index(table, id) ==> !(#[trigger] table[j]).0.is_prefix_of(id),
    decreases table.len(),
{
    if table.len() > 0 && !table[0].0.is_prefix_of(id) {
        let rest = table.drop_first();
        lemma_prefix_match_index(rest, id);
        assert forall|j: int| 0 <= j < prefix_match_index(table, id) implies !(
        #[trigger] table[j]).0.is_prefix_of(id) by {
            if j > 0 {
                assert(table[j] == rest[j - 1]);
            }
        }
    }
}

/// In a table ordered most specific first, the entry that wins is the
/// longest of all the entries that match: no matching entry has a longer
/// prefix than the one whose label is returned.
pub proof fn lemma_first_match_is_most_specific(
    table: Seq<(Seq<char>, Seq<char>)>,
    id: Seq<char>,
    j: int,
)
    requires
        most_specific_first(table),
        0 <= j < table.len(),
        table[j].0.is_prefix_of(id),
    ensures
        prefix_match_index(table, id) < table.len(),
        table[j].0.len() <= table[prefix_match_index(table, id) as int].0.len(),
{
    lemma_prefix_match_index(table, id);
    let k = prefix_match_index(table, id) as int;
    assert(k <= j);
    let a = table[k].0;
    let b = table[j].0;
    if k < j && a.len() < b.len() {
        assert(a.is_prefix_of(b)) by {
            assert forall|x: int| 0 <= x < a.len() implies a[x] == b[x] by {
                assert(a[x] == id[x]);
                assert(b[x] == id[x]);
            }
            assert(a =~= b.subrange(0, a.len() as int));
        }
        assert(shadows(table[k].0, table[j].0));
    }
}

/// The built-in table never lets a shorter prefix hide a longer one.
pub proof fn lemma_known_manufacturers_most_specific_first()
    ensures
        most_specific_first(known_manufacturers()),
{
    reveal_strlit("E002");
    reveal_strlit("E004");
    reveal_strlit("E007");
    reveal_strlit("E016");
    reveal_strlit("E0");
    reveal_strlit("01");
    reveal_strlit("02");
    reveal_strlit("03");
    reveal_strlit("04");
    reveal_strlit("05");
    reveal_strlit("06");
    reveal_strlit("07");
    reveal_strlit("08");
    reveal_strlit("09");
    reveal_strlit("0A");
    reveal_strlit("0B");
    reveal_strlit("0C");
    reveal_strlit("0D");
    reveal_strlit("0E");
    reveal_strlit("0F");
    reveal_strlit("16");
    let t = known_manufacturers();
    assert(t[0].0.len() == 4);
    assert(t[1].0.len() == 4);
    assert(t[2].0.len() == 4);
    assert(t[3].0.len() == 4);
    assert(t[4].0.len() == 2);
    assert(t[5].0.len() == 2);
    assert(t[6].0.len() == 2);
    assert(t[7].0.len() == 2);
    assert(t[8].0.len() == 2);
    assert(t[9].0.len() == 2);
    assert(t[10].0.len() == 2);
    assert(t[11].0.len() == 2);
    assert(t[12].0.len() == 2);
    assert(t[13].0.len() == 2);
    assert(t[14].0.len() == 2);
    assert(t[15].0.len() == 2);
    assert(t[16].0.len() == 2);
    assert(t[17].0.len() == 2);
    assert(t[18].0.len() == 2);
    assert(t[19].0.len() == 2);
    assert(t[20].0.len() == 2);
    assert forall|i: int, j: int| 0 <= i < j < t.len() implies !#[trigger] shadows(
        t[i].0,
        t[j].0,
    ) by {
        assert(t[i].0.len() >= t[j].0.len());
    }
}

} // verus!

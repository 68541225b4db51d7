//! The user registry: identities keyed by a short user key, built from the
//! user table, with last-write-wins on duplicate keys.

use vstd::prelude::*;

use crate::errors::ErrV;
use crate::errors::GenerationError;
use crate::text::spec_lines;
use crate::text::spec_split;
use crate::text::split_lines;
use crate::text::split_str;

verus! {

/// A display name and an email address.
pub struct User {
    pub name: String,
    pub mail: String,
}

/// The mathematical model of a `User`.
pub struct UserV {
    pub name: Seq<char>,
    pub mail: Seq<char>,
}

impl View for User {
    type V = UserV;

    open spec fn view(&self) -> UserV {
        UserV { name: self.name@, mail: self.mail@ }
    }
}

impl User {
    pub fn new(name: String, mail: String) -> (r: Self)
        ensures
            r@.name == name@,
            r@.mail == mail@,
    {
        User { name: name, mail: mail }
    }
}

/// One row of the user table: a key and the identity it names.
pub struct UserEntry {
    pub id: String,
    pub user: User,
}

/// The mathematical model of a `UserEntry`.
pub struct UserEntryV {
    pub id: Seq<char>,
    pub user: UserV,
}

impl View for UserEntry {
    type V = UserEntryV;

    open spec fn view(&self) -> UserEntryV {
        UserEntryV { id: self.id@, user: self.user@ }
    }
}

/// The identity that `key` names among `entries`, where a later entry with
/// the same key overwrites an earlier one.
pub open spec fn spec_lookup(entries: Seq<UserEntryV>, key: Seq<char>) -> Option<UserV>
    decreases entries.len(),
{
    if entries.len() == 0 {
        None
    } else if entries.last().id == key {
        Some(entries.last().user)
    } else {
        spec_lookup(entries.drop_last(), key)
    }
}

/// The rows of a table text: its lines with the header line dropped.
pub open spec fn spec_data_rows(s: Seq<char>) -> Seq<Seq<char>> {
    let ls = spec_lines(s);
    if ls.len() == 0 {
        ls
    } else {
        ls.drop_first()
    }
}

/// The registry read from the user-table rows `rows`, where the first row
/// has line number `idx` in its table: each row must have exactly three
/// fields (key, display name, email), and the first malformed row aborts
/// with `ParseError` naming its line.
pub open spec fn spec_users_from(rows: Seq<Seq<char>>, idx: int) -> Result<Seq<UserEntryV>, ErrV>
    decreases rows.len(),
{
    if rows.len() == 0 {
        Ok(Seq::<UserEntryV>::empty())
    } else {
        let f = spec_split(rows[0], ',');
        if f.len() != 3 {
            Err(ErrV::ParseError { row: idx })
        } else {
            match spec_users_from(rows.drop_first(), idx + 1) {
                Ok(rest) => Ok(
                    seq![UserEntryV { id: f[0], user: UserV { name: f[1], mail: f[2] } }] + rest,
                ),
                Err(e) => Err(e),
            }
        }
    }
}

/// The registry read from the whole user table `s` (header line skipped).
pub open spec fn spec_new_users(s: Seq<char>) -> Result<Seq<UserEntryV>, ErrV> {
    spec_users_from(spec_data_rows(s), 1)
}

/// The user registry, in table order.
pub struct UserRegistry {
    pub entries: Vec<UserEntry>,
}

impl View for UserRegistry {
    type V = Seq<UserEntryV>;

    open spec fn view(&self) -> Seq<UserEntryV> {
        Seq::new(self.entries@.len(), |i: int| self.entries@[i]@)
    }
}

impl UserRegistry {
    /// Resolve a user key: the identity of the last table row bearing `key`,
    /// or `None` when no row does.
    pub fn lookup(&self, key: &String) -> (r: Option<&User>)
        ensures
            match r {
                Some(u) => spec_lookup(self@, key@) == Some(u@),
                None => spec_lookup(self@, key@) is None,
            },
    {
        let mut i = self.entries.len();
        proof {
            assert(self@.take(i as int) =~= self@);
        }
        while i > 0
            invariant
                i <= self.entries.len(),
                spec_lookup(self@, key@) == spec_lookup(self@.take(i as int), key@),
            decreases i,
        {
            i = i - 1;
            proof {
                assert(self@.take(i + 1).last() == self@[i as int]);
                assert(self@.take(i + 1).drop_last() =~= self@.take(i as int));
            }
            if self.entries[i].id == *key {
                return Some(&self.entries[i].user);
            }
        }
        proof {
            assert(self@.take(0) =~= Seq::<UserEntryV>::empty());
        }
        None
    }
}

/// Build the user registry from the user table text: one entry per data row
/// (the header line is skipped), in table order; a row without exactly three
/// fields aborts with `ParseError` naming its line.
pub fn new_users(users_csv: &str) -> (r: Result<UserRegistry, GenerationError>)
    ensures
        match r {
            Ok(reg) => spec_new_users(users_csv@) == Ok::<_, ErrV>(reg@),
            Err(e) => spec_new_users(users_csv@) == Err::<Seq<UserEntryV>, _>(e@),
        },
{
    let lines = split_lines(users_csv);
    let ghost rows = spec_data_rows(users_csv@);
    let mut entries: Vec<UserEntry> = Vec::new();
    let mut i: usize = 1;
    proof {
        assert(rows.skip(0) =~= rows);
        if lines.deep_view().len() > 0 {
            assert(rows =~= lines.deep_view().drop_first());
        }
    }
    while i < lines.len()
        invariant
            1 <= i,
            lines.len() == 0 ==> i == 1,
            lines.len() > 0 ==> i <= lines.len(),
            lines.deep_view() == spec_lines(users_csv@),
            rows == spec_data_rows(users_csv@),
            i - 1 <= rows.len(),
            rows.len() == (if lines.len() == 0 {
                0int
            } else {
                lines.len() - 1
            }),
            forall|j: int| 0 <= j < rows.len() ==> rows[j] == lines.deep_view()[j + 1],
            entries@.len() == i - 1,
            match spec_users_from(rows.skip(i - 1), i as int) {
                Ok(rest) => spec_new_users(users_csv@) == Ok::<_, ErrV>(
                    Seq::new(entries@.len(), |k: int| entries@[k]@) + rest,
                ),
                Err(e) => spec_new_users(users_csv@) == Err::<Seq<UserEntryV>, _>(e),
            },
        decreases lines.len() - i,
    {
        proof {
            assert(rows.skip(i - 1).len() > 0);
            assert(rows.skip(i - 1)[0] == rows[i - 1]);
            assert(rows.skip(i - 1).drop_first() =~= rows.skip(i as int));
        }
        let mut fields = split_str(lines[i].as_str(), ',');
        if fields.len() != 3 {
            return Err(GenerationError::ParseError { row: i });
        }
        let ghost before = Seq::new(entries@.len(), |k: int| entries@[k]@);
        let mail = fields.pop().unwrap();
        let name = fields.pop().unwrap();
        let id = fields.pop().unwrap();
        let entry = UserEntry { id: id, user: User::new(name, mail) };
        proof {
            let f = spec_split(rows[i - 1], ',');
            assert(entry@ == UserEntryV { id: f[0], user: UserV { name: f[1], mail: f[2] } });
        }
        entries.push(entry);
        proof {
            assert(Seq::new(entries@.len(), |k: int| entries@[k]@) =~= before.push(entry@));
            if spec_users_from(rows.skip(i as int), i + 1) is Ok {
                let rest = spec_users_from(rows.skip(i as int), i + 1)->Ok_0;
                assert(before.push(entry@) + rest =~= before + (seq![entry@] + rest));
            }
        }
        i += 1;
    }
    proof {
        assert(rows.skip(i - 1) =~= Seq::<Seq<char>>::empty());
    }
    let reg = UserRegistry { entries };
    proof {
        assert(reg@ + Seq::<UserEntryV>::empty() =~= reg@);
    }
    Ok(reg)
}

} // verus!

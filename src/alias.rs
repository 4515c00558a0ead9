//! Names for fixed-length hexadecimal identifiers (addresses, claim and asset ids).

use vstd::prelude::*;

use crate::error::CliError;
use crate::table::Table;
use crate::text::{all_hex, is_hex_digit_exec, lower_text, owned, to_lower};

verus! {

/// The texts of a list of strings.
pub open spec fn texts(v: Seq<String>) -> Seq<Seq<char>> {
    v.map_values(|s: String| s@)
}

/// Exactly `n` hexadecimal digits.
pub open spec fn hex_run(s: Seq<char>, n: nat) -> bool {
    s.len() == n && all_hex(s)
}

/// A list of identifiers after `id` is added to it, unless it is there already.
pub open spec fn with_id(ids: Seq<Seq<char>>, id: Seq<char>) -> Seq<Seq<char>> {
    if ids.contains(id) {
        ids
    } else {
        ids.push(id)
    }
}

/// Maps names to the canonical identifiers recorded for them.
pub struct HexMap {
    prefix: String,
    prefix_optional: bool,
    len: u32,
    str_to_id: Table<Vec<String>>,
}

impl HexMap {
    /// The prefix that canonical identifiers carry.
    pub closed spec fn prefix_text(&self) -> Seq<char> {
        self.prefix@
    }

    /// Whether the prefix may be left out.
    pub closed spec fn prefix_optional(&self) -> bool {
        self.prefix_optional
    }

    /// The number of hexadecimal digits after the prefix.
    pub closed spec fn digits(&self) -> nat {
        self.len as nat
    }

    /// The identifiers recorded under each name, in the order they were added.
    pub closed spec fn aliases(&self) -> Map<Seq<char>, Seq<Seq<char>>> {
        Map::new(
            |k: Seq<char>| self.str_to_id@.contains_key(k),
            |k: Seq<char>| texts(self.str_to_id@[k]@),
        )
    }

    /// The prefix followed by the right number of hexadecimal digits, or those digits alone
    /// where the prefix is optional.
    pub open spec fn accepts(&self, s: Seq<char>) -> bool {
        let p = self.prefix_text();
        ||| (p.len() <= s.len() && s.take(p.len() as int) == p && hex_run(
            s.skip(p.len() as int),
            self.digits(),
        ))
        ||| (self.prefix_optional() && hex_run(s, self.digits()))
    }

    /// What a name or an identifier resolves to: the only identifier recorded under it, or else
    /// the text itself in canonical form where it is accepted.
    pub open spec fn resolve(&self, name: Seq<char>) -> Option<Seq<char>> {
        if self.aliases().contains_key(name) && self.aliases()[name].len() == 1 {
            Some(self.aliases()[name][0])
        } else if self.accepts(name) {
            Some(lower_text(name))
        } else {
            None
        }
    }

    /// The identifiers by name after `address`, in canonical form, is recorded under `name`.
    pub open spec fn aliases_with(&self, name: Seq<char>, address: Seq<char>) -> Map<
        Seq<char>,
        Seq<Seq<char>>,
    > {
        self.aliases().insert(
            name,
            with_id(
                if self.aliases().contains_key(name) {
                    self.aliases()[name]
                } else {
                    Seq::empty()
                },
                lower_text(address),
            ),
        )
    }

    /// The error that resolving `name` fails with, when it does: the recorded identifiers when
    /// there are several, otherwise a bad format.
    pub open spec fn lookup_error(&self, name: Seq<char>, e: CliError) -> bool {
        if self.aliases().contains_key(name) {
            e matches CliError::Ambiguous(ids) && texts(ids@) == self.aliases()[name]
        } else {
            e == CliError::InvalidFormat
        }
    }

    /// Accepted and already in lower case.
    pub open spec fn is_canonical(&self, s: Seq<char>) -> bool {
        self.accepts(s) && lower_text(s) == s
    }

    /// Every name has at least one identifier, each canonical and listed once.
    pub closed spec fn well_formed(&self) -> bool {
        &&& self.str_to_id.well_formed()
        &&& lower_text(self.prefix@) == self.prefix@
        &&& forall|k: Seq<char>| #[trigger]
            self.str_to_id@.contains_key(k) ==> {
                let ids = texts(self.str_to_id@[k]@);
                &&& ids.len() > 0
                &&& ids.no_duplicates()
                &&& forall|i: int| 0 <= i < ids.len() ==> self.is_canonical(#[trigger] ids[i])
            }
    }

    /// An empty map whose identifiers carry `prefix` followed by `len` digits.
    pub fn new(prefix: &str, len: u32) -> (r: Self)
        requires
            lower_text(prefix@) == prefix@,
        ensures
            r.well_formed(),
            r.prefix_text() == prefix@,
            !r.prefix_optional(),
            r.digits() == len,
            r.aliases() == Map::<Seq<char>, Seq<Seq<char>>>::empty(),
    {
        let r = HexMap { prefix: owned(prefix), prefix_optional: false, len, str_to_id: Table::new() };
        assert(r.aliases() =~= Map::<Seq<char>, Seq<Seq<char>>>::empty());
        r
    }

    /// An empty map whose identifiers are `len` digits, with or without `prefix` before them.
    pub fn with_optional_prefix(prefix: &str, len: u32) -> (r: Self)
        requires
            lower_text(prefix@) == prefix@,
        ensures
            r.well_formed(),
            r.prefix_text() == prefix@,
            r.prefix_optional(),
            r.digits() == len,
            r.aliases() == Map::<Seq<char>, Seq<Seq<char>>>::empty(),
    {
        let r = HexMap { prefix: owned(prefix), prefix_optional: true, len, str_to_id: Table::new() };
        assert(r.aliases() =~= Map::<Seq<char>, Seq<Seq<char>>>::empty());
        r
    }

    /// Whether the characters of `s` from `from` on are exactly `self.len` hexadecimal digits.
    fn digits_from(&self, s: &str, from: usize) -> (r: bool)
        requires
            from <= s@.len(),
        ensures
            r == hex_run(s@.skip(from as int), self.digits()),
    {
        let n = s.unicode_len();
        if n - from != self.len as usize {
            return false;
        }
        let mut i = from;
        while i < n
            invariant
                from <= i <= n,
                n == s@.len(),
                n - from == self.len,
                all_hex(s@.subrange(from as int, i as int)),
            decreases n - i,
        {
            if !is_hex_digit_exec(s.get_char(i)) {
                assert(s@.skip(from as int)[i - from] == s@[i as int]);
                return false;
            }
            i = i + 1;
            assert(forall|j: int|
                0 <= j < i - from ==> #[trigger] s@.subrange(from as int, i as int)[j] == s@[from
                    + j]);
        }
        assert(s@.subrange(from as int, n as int) =~= s@.skip(from as int));
        true
    }

    /// Checks that `address` is an identifier of this map, and gives its lower-case form.
    pub fn check_hex_format(&self, address: &str) -> (r: Result<String, CliError>)
        ensures
            match r {
                Ok(v) => self.accepts(address@) && v@ == lower_text(address@),
                Err(e) => !self.accepts(address@) && e == CliError::InvalidFormat,
            },
    {
        let p = self.prefix.as_str();
        let plen = p.unicode_len();
        let with_prefix = crate::text::starts_with(address, p) && self.digits_from(address, plen);
        if with_prefix || (self.prefix_optional && self.digits_from(address, 0)) {
            proof {
                assert(address@.skip(0) =~= address@);
            }
            Ok(to_lower(address))
        } else {
            assert(address@.skip(0) =~= address@);
            Err(CliError::InvalidFormat)
        }
    }

    /// The lower-case form of an accepted text is canonical.
    proof fn lemma_lower_canonical(&self, s: Seq<char>)
        requires
            self.accepts(s),
            lower_text(self.prefix_text()) == self.prefix_text(),
        ensures
            self.is_canonical(lower_text(s)),
    {
        let l = lower_text(s);
        let p = self.prefix_text();
        assert(lower_text(l) =~= l);
        assert forall|i: int| 0 <= i < s.len() && crate::text::is_hex_digit(s[i]) implies
            crate::text::is_hex_digit(#[trigger] l[i]) by {}
        if p.len() <= s.len() && s.take(p.len() as int) == p && hex_run(
            s.skip(p.len() as int),
            self.digits(),
        ) {
            assert(l.take(p.len() as int) =~= lower_text(s.take(p.len() as int)));
            assert forall|i: int| 0 <= i < l.skip(p.len() as int).len() implies
                crate::text::is_hex_digit(#[trigger] l.skip(p.len() as int)[i]) by {
                assert(s.skip(p.len() as int)[i] == s[i + p.len()]);
            }
        } else {
            assert forall|i: int| 0 <= i < l.len() implies crate::text::is_hex_digit(
                #[trigger] l[i],
            ) by {
                assert(s[i] == s[i]);
            }
        }
    }

    /// Records `address`, in canonical form, under `name`; an identifier already recorded
    /// under that name is not added twice.
    pub fn add_id(&mut self, name: &str, address: String) -> (r: Result<(), CliError>)
        requires
            old(self).well_formed(),
        ensures
            final(self).well_formed(),
            final(self).prefix_text() == old(self).prefix_text(),
            final(self).prefix_optional() == old(self).prefix_optional(),
            final(self).digits() == old(self).digits(),
            match r {
                Ok(()) => old(self).accepts(address@) && final(self).aliases() == old(
                    self,
                ).aliases_with(name@, address@),
                Err(e) => !old(self).accepts(address@) && e == CliError::InvalidFormat
                    && final(self).aliases() == old(self).aliases(),
            },
    {
        let canon = match self.check_hex_format(address.as_str()) {
            Ok(c) => c,
            Err(e) => return Err(e),
        };
        proof {
            self.lemma_lower_canonical(address@);
        }
        let key = owned(name);
        let ghost before = self.aliases();
        let ghost old_ids: Seq<Seq<char>> = if before.contains_key(name@) {
            before[name@]
        } else {
            Seq::empty()
        };
        let ids = match self.str_to_id.remove(&key) {
            Some(mut ids) => {
                let mut found = false;
                let mut i: usize = 0;
                while i < ids.len()
                    invariant
                        i <= ids@.len(),
                        texts(ids@) == old_ids,
                        found <==> exists|j: int| 0 <= j < i && #[trigger] texts(ids@)[j] == canon@,
                    decreases ids@.len() - i,
                {
                    if ids[i] == canon {
                        found = true;
                        assert(texts(ids@)[i as int] == canon@);
                    }
                    i = i + 1;
                }
                if !found {
                    ids.push(canon);
                    assert(texts(ids@) =~= old_ids.push(lower_text(address@)));
                }
                ids
            },
            None => {
                let ids = vec![canon];
                assert(texts(ids@) =~= seq![lower_text(address@)]);
                assert(old_ids =~= Seq::<Seq<char>>::empty());
                assert(with_id(old_ids, lower_text(address@)) =~= seq![lower_text(address@)]);
                ids
            },
        };
        self.str_to_id.insert(key, ids);
        proof {
            let new_ids = with_id(old_ids, lower_text(address@));
            assert(texts(self.str_to_id@[name@]@) == new_ids);
            assert(self.aliases() =~= before.insert(name@, new_ids));
            assert forall|k: Seq<char>| #[trigger] self.str_to_id@.contains_key(k) implies {
                let ids = texts(self.str_to_id@[k]@);
                &&& ids.len() > 0
                &&& ids.no_duplicates()
                &&& forall|i: int| 0 <= i < ids.len() ==> self.is_canonical(#[trigger] ids[i])
            } by {
                if k == name@ {
                    let ids = texts(self.str_to_id@[k]@);
                    if !old_ids.contains(lower_text(address@)) {
                        assert forall|i: int, j: int|
                            0 <= i < ids.len() && 0 <= j < ids.len() && i != j implies ids[i]
                            != ids[j] by {
                            if i == old_ids.len() as int {
                                assert(old_ids[j] == ids[j]);
                            } else if j == old_ids.len() as int {
                                assert(old_ids[i] == ids[i]);
                            }
                        }
                    }
                }
            }
        }
        Ok(())
    }

    /// The identifier that `name` stands for: its only recorded identifier; otherwise `name`
    /// itself in canonical form, where it is an identifier.
    pub fn lookup_id(&self, name: &str) -> (r: Result<String, CliError>)
        requires
            self.well_formed(),
        ensures
            match r {
                Ok(v) => self.resolve(name@) == Some(v@),
                Err(e) => self.resolve(name@) is None && self.lookup_error(name@, e),
            },
    {
        let key = owned(name);
        match self.str_to_id.get(&key) {
            Some(ids) => {
                if ids.len() == 1 {
                    Ok(ids[0].clone())
                } else {
                    match self.check_hex_format(name) {
                        Ok(v) => Ok(v),
                        Err(_) => {
                            let all = ids.clone();
                            assert(all@ =~= ids@);
                            Err(CliError::Ambiguous(all))
                        },
                    }
                }
            },
            None => self.check_hex_format(name),
        }
    }

    /// Every name with its identifiers, each name once.
    pub fn list(&self) -> (r: Vec<(&String, &Vec<String>)>)
        requires
            self.well_formed(),
        ensures
            forall|i: int|
                0 <= i < r@.len() ==> self.aliases().contains_key(#[trigger] r@[i].0@)
                    && self.aliases()[r@[i].0@] == texts(r@[i].1@),
            forall|i: int, j: int| 0 <= i < j < r@.len() ==> #[trigger] r@[i].0@ != #[trigger] r@[j].0@,
            forall|k: Seq<char>| #[trigger]
                self.aliases().contains_key(k) ==> exists|i: int| 0 <= i < r@.len() && #[trigger] r@[i].0@ == k,
    {
        self.str_to_id.list()
    }

    /// Forgets every identifier recorded under `name`.
    pub fn remove_id(&mut self, name: &str) -> (r: Result<(), CliError>)
        requires
            old(self).well_formed(),
        ensures
            final(self).well_formed(),
            final(self).prefix_text() == old(self).prefix_text(),
            final(self).prefix_optional() == old(self).prefix_optional(),
            final(self).digits() == old(self).digits(),
            final(self).aliases() == old(self).aliases().remove(name@),
            r is Ok <==> old(self).aliases().contains_key(name@),
            r matches Err(e) ==> e == CliError::NotFound,
    {
        let key = owned(name);
        let removed = self.str_to_id.remove(&key);
        assert(self.aliases() =~= old(self).aliases().remove(name@));
        match removed {
            Some(_) => Ok(()),
            None => Err(CliError::NotFound),
        }
    }
}

/// A name recorded with a single identifier resolves to that identifier.
pub proof fn lemma_add_then_lookup(before: HexMap, after: HexMap, name: Seq<char>, id: Seq<char>)
    requires
        before.accepts(id),
        after.aliases() == before.aliases().insert(
            name,
            with_id(
                if before.aliases().contains_key(name) {
                    before.aliases()[name]
                } else {
                    Seq::empty()
                },
                lower_text(id),
            ),
        ),
        after.aliases()[name].len() == 1,
    ensures
        after.resolve(name) == Some(lower_text(id)),
{
    let old_ids = if before.aliases().contains_key(name) {
        before.aliases()[name]
    } else {
        Seq::empty()
    };
    if old_ids.contains(lower_text(id)) {
        let j = choose|j: int| 0 <= j < old_ids.len() && old_ids[j] == lower_text(id);
        assert(j == 0);
    }
}

/// Two different identifiers added under one name leave it ambiguous, unless the name is itself
/// an identifier: resolution fails, and both identifiers are among those recorded for it.
pub proof fn lemma_two_ids_ambiguous(
    first: HexMap,
    second: HexMap,
    third: HexMap,
    name: Seq<char>,
    id1: Seq<char>,
    id2: Seq<char>,
)
    requires
        first.accepts(id1),
        second.accepts(id2),
        lower_text(id1) != lower_text(id2),
        !third.accepts(name),
        second.aliases() == first.aliases().insert(
            name,
            with_id(
                if first.aliases().contains_key(name) {
                    first.aliases()[name]
                } else {
                    Seq::empty()
                },
                lower_text(id1),
            ),
        ),
        third.aliases() == second.aliases().insert(
            name,
            with_id(
                if second.aliases().contains_key(name) {
                    second.aliases()[name]
                } else {
                    Seq::empty()
                },
                lower_text(id2),
            ),
        ),
    ensures
        third.aliases().contains_key(name),
        third.aliases()[name].contains(lower_text(id1)),
        third.aliases()[name].contains(lower_text(id2)),
        third.resolve(name) is None,
{
    let mid = second.aliases()[name];
    let last = third.aliases()[name];
    assert(mid.contains(lower_text(id1))) by {
        let old_ids = if first.aliases().contains_key(name) {
            first.aliases()[name]
        } else {
            Seq::empty()
        };
        if !old_ids.contains(lower_text(id1)) {
            assert(mid[old_ids.len() as int] == lower_text(id1));
        }
    }
    let j = choose|j: int| 0 <= j < mid.len() && mid[j] == lower_text(id1);
    if mid.contains(lower_text(id2)) {
        let k = choose|k: int| 0 <= k < mid.len() && mid[k] == lower_text(id2);
        assert(last == mid);
        assert(j != k);
    } else {
        assert(last[j] == lower_text(id1));
        assert(last[mid.len() as int] == lower_text(id2));
    }
    assert(last.len() != 1) by {
        if last.len() == 1 {
            if mid.contains(lower_text(id2)) {
                let k = choose|k: int| 0 <= k < mid.len() && mid[k] == lower_text(id2);
                assert(j == 0 && k == 0);
            }
        }
    }
}

/// A canonical identifier that is not used as a name resolves to itself.
pub proof fn lemma_lookup_unknown_id(map: HexMap, id: Seq<char>)
    requires
        map.is_canonical(id),
        !map.aliases().contains_key(id),
    ensures
        map.resolve(id) == Some(id),
{
}

} // verus!

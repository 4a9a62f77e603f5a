//! The tokenizer: which words a record can be found by.
use crate::monsters::{Actions, AttackRoll, DamageRoll, Monster, Tokenize};
use crate::utilities::collections::ListSet;
use crate::utilities::text::{alphanumeric, lowercase, whitespace};
use vstd::prelude::*;

verus! {

/// `text` cut at every whitespace character: the fragments between them, in
/// order, some of them possibly empty.
pub open spec fn fragments(text: Seq<char>) -> Seq<Seq<char>>
    decreases text.len(),
{
    if text.len() == 0 {
        seq![Seq::empty()]
    } else {
        let before = fragments(text.drop_last());
        if whitespace(text.last()) {
            before.push(Seq::empty())
        } else {
            before.drop_last().push(before.last().push(text.last()))
        }
    }
}

/// The alphanumeric characters of `text`, in order.
pub open spec fn letters(text: Seq<char>) -> Seq<char>
    decreases text.len(),
{
    if text.len() == 0 {
        Seq::empty()
    } else if alphanumeric(text.last()) {
        letters(text.drop_last()).push(text.last())
    } else {
        letters(text.drop_last())
    }
}

/// The token that a fragment yields: its alphanumeric characters, lowercased.
pub open spec fn token_of(fragment: Seq<char>) -> Seq<char> {
    lowercase(letters(fragment))
}

/// The tokens that some of `pieces` yield, empty tokens left out.
pub open spec fn tokens_among(pieces: Seq<Seq<char>>) -> Set<Seq<char>> {
    Set::new(
        |token: Seq<char>|
            token.len() > 0 && exists|i: int|
                0 <= i < pieces.len() && token_of(#[trigger] pieces[i]) == token,
    )
}

/// The tokens of one text.
pub open spec fn text_tokens(text: Seq<char>) -> Set<Seq<char>> {
    tokens_among(fragments(text))
}

/// The tokens of all of `sources` together.
pub open spec fn tokens_from(sources: Set<Seq<char>>) -> Set<Seq<char>> {
    Set::new(
        |token: Seq<char>|
            exists|source: Seq<char>|
                sources.contains(source) && #[trigger] text_tokens(source).contains(token),
    )
}

/// The texts that `strings` hold, as a set.
pub open spec fn text_set(strings: Seq<String>) -> Set<Seq<char>> {
    Set::new(|text: Seq<char>| exists|i: int| 0 <= i < strings.len() && #[trigger] strings[i]@ == text)
}

/// The type names of the components of `damage`.
pub open spec fn damage_labels(damage: Seq<DamageRoll>) -> Set<Seq<char>> {
    Set::new(
        |text: Seq<char>|
            exists|i: int| 0 <= i < damage.len() && (#[trigger] damage[i]).damage_type.label() == text,
    )
}

/// The texts that describe an attack: its name, the name of its type, and the
/// type names of its damage.
pub open spec fn attack_texts(attack: AttackRoll) -> Set<Seq<char>> {
    set![attack.name@, attack.attack_type.label()].union(damage_labels(attack.damage@))
}

/// The texts that describe any of `attacks`.
pub open spec fn attacks_texts(attacks: Seq<AttackRoll>) -> Set<Seq<char>> {
    Set::new(
        |text: Seq<char>|
            exists|i: int| 0 <= i < attacks.len() && attack_texts(#[trigger] attacks[i]).contains(text),
    )
}

/// The texts that describe a creature's actions: each listed action and the
/// texts of each attack.
pub open spec fn action_texts(actions: Actions) -> Set<Seq<char>> {
    text_set(actions.list@).union(attacks_texts(actions.attack_rolls@))
}

/// The texts of a creature's actions, none for a creature without actions.
pub open spec fn optional_action_texts(actions: Option<Actions>) -> Set<Seq<char>> {
    match actions {
        Some(actions) => action_texts(actions),
        None => Set::empty(),
    }
}

/// The texts that a record is searched by: name, size, creature type,
/// alignment, every language, every trait, and the texts of its actions.
pub open spec fn source_texts(monster: Monster) -> Set<Seq<char>> {
    set![monster.name@, monster.size.label(), monster.creature_type@, monster.alignment@].union(
        text_set(monster.languages@),
    ).union(text_set(monster.traits@)).union(optional_action_texts(monster.actions))
}

/// One more piece adds its token, unless the token is empty.
pub proof fn lemma_tokens_among_push(pieces: Seq<Seq<char>>, piece: Seq<char>)
    ensures
        tokens_among(pieces.push(piece)) == if token_of(piece).len() > 0 {
            tokens_among(pieces).insert(token_of(piece))
        } else {
            tokens_among(pieces)
        },
{
    let longer = pieces.push(piece);
    let expected = if token_of(piece).len() > 0 {
        tokens_among(pieces).insert(token_of(piece))
    } else {
        tokens_among(pieces)
    };
    assert forall|token: Seq<char>| expected.contains(token) implies tokens_among(longer).contains(
        token,
    ) by {
        if tokens_among(pieces).contains(token) {
            let i = choose|i: int| 0 <= i < pieces.len() && token_of(#[trigger] pieces[i]) == token;
            assert(token_of(longer[i]) == token);
        } else {
            assert(token_of(longer[pieces.len() as int]) == token);
        }
    }
}

/// One more source adds the tokens of its text.
pub proof fn lemma_tokens_from_insert(sources: Set<Seq<char>>, source: Seq<char>)
    ensures
        tokens_from(sources.insert(source)) == tokens_from(sources).union(text_tokens(source)),
{
}

/// The tokens of two sets of sources together are the tokens of each.
pub proof fn lemma_tokens_from_union(first: Set<Seq<char>>, second: Set<Seq<char>>)
    ensures
        tokens_from(first.union(second)) == tokens_from(first).union(tokens_from(second)),
{
}

/// Without sources there are no tokens.
pub proof fn lemma_tokens_from_nothing()
    ensures
        tokens_from(Set::empty()) == Set::<Seq<char>>::empty(),
{
}

/// The texts of a list grow by one text with each string.
pub proof fn lemma_text_set_take(strings: Seq<String>, n: int)
    requires
        0 <= n < strings.len(),
    ensures
        text_set(strings.take(n + 1)) == text_set(strings.take(n)).insert(strings[n]@),
{
    let longer = strings.take(n + 1);
    let shorter = strings.take(n);
    assert forall|text: Seq<char>|
        text_set(shorter).insert(strings[n]@).contains(text) implies text_set(longer).contains(
        text,
    ) by {
        if !text_set(shorter).contains(text) {
            assert(longer[n]@ == text);
        }
    }
}

/// No token is empty.
pub proof fn lemma_tokens_are_not_empty(monster: Monster, token: Seq<char>)
    requires
        monster.tokens().contains(token),
    ensures
        token.len() > 0,
{
}

/// Records that are described by the same texts have the same tokens; so
/// tokenizing one record twice yields the same set both times.
pub proof fn lemma_tokens_depend_on_texts(first: Monster, second: Monster)
    requires
        source_texts(first) == source_texts(second),
    ensures
        first.tokens() == second.tokens(),
{
}

/// Adds the tokens of `text` to `tokens`.
pub fn tokenize_text(text: &str, tokens: &mut ListSet<String>)
    ensures
        final(tokens)@ == old(tokens)@.union(text_tokens(text@)),
{
    let mut current = String::new();
    for c in it: text.chars()
        invariant
            it.seq() == text@,
            fragments(text@.take(it.index() as int)).len() > 0,
            current@ == letters(fragments(text@.take(it.index() as int)).last()),
            tokens@ == old(tokens)@.union(
                tokens_among(fragments(text@.take(it.index() as int)).drop_last()),
            ),
    {
        let ghost before = fragments(text@.take(it.index() as int));
        proof {
            let next = text@.take(it.index() + 1);
            assert(next.drop_last() =~= text@.take(it.index() as int));
        }
        if c.is_whitespace() {
            let token = current.as_str().to_lowercase();
            proof {
                lemma_tokens_among_push(before.drop_last(), before.last());
                assert(before.drop_last().push(before.last()) =~= before);
                assert(before.push(Seq::empty()).drop_last() =~= before);
            }
            if !token.as_str().is_empty() {
                tokens.insert(token);
            }
            current = String::new();
        } else {
            proof {
                let grown = before.drop_last().push(before.last().push(c));
                assert(grown.drop_last() =~= before.drop_last());
                assert(before.last().push(c).drop_last() =~= before.last());
            }
            if c.is_alphanumeric() {
                current.push(c);
            }
        }
    }
    let ghost all = fragments(text@);
    proof {
        assert(text@.take(text@.len() as int) =~= text@);
        lemma_tokens_among_push(all.drop_last(), all.last());
        assert(all.drop_last().push(all.last()) =~= all);
    }
    let token = current.as_str().to_lowercase();
    if !token.as_str().is_empty() {
        tokens.insert(token);
    }
}

/// Adds the tokens of every text in `texts` to `tokens`.
pub fn tokenize_all(texts: &Vec<String>, tokens: &mut ListSet<String>)
    ensures
        final(tokens)@ == old(tokens)@.union(tokens_from(text_set(texts@))),
{
    let mut i: usize = 0;
    proof {
        lemma_tokens_from_nothing();
    }
    while i < texts.len()
        invariant
            i <= texts.len(),
            tokens@ == old(tokens)@.union(tokens_from(text_set(texts@.take(i as int)))),
        decreases texts.len() - i,
    {
        let ghost done = text_set(texts@.take(i as int));
        tokenize_text(texts[i].as_str(), tokens);
        proof {
            lemma_text_set_take(texts@, i as int);
            lemma_tokens_from_insert(done, texts@[i as int]@);
        }
        i += 1;
    }
    assert(texts@.take(i as int) =~= texts@);
}

/// The type names of the damage components are their terms.
impl Tokenize for Vec<DamageRoll> {
    open spec fn tokens(&self) -> Set<Seq<char>> {
        damage_labels(self@)
    }

    fn tokenize(&self) -> (tokens: ListSet<String>) {
        let mut tokens: ListSet<String> = ListSet::new();
        let mut i: usize = 0;
        while i < self.len()
            invariant
                i <= self.len(),
                tokens@ == damage_labels(self@.take(i as int)),
            decreases self.len() - i,
        {
            tokens.insert(self[i].damage_type.to_str().to_owned());
            proof {
                let longer = self@.take(i + 1);
                let shorter = self@.take(i as int);
                let label = self@[i as int].damage_type.label();
                assert forall|text: Seq<char>|
                    damage_labels(shorter).insert(label).contains(text) implies damage_labels(
                    longer,
                ).contains(text) by {
                    if !damage_labels(shorter).contains(text) {
                        assert(longer[i as int].damage_type.label() == text);
                    }
                }
            }
            i += 1;
        }
        assert(self@.take(i as int) =~= self@);
        tokens
    }
}

/// An attack's name, the name of its type and the type names of its damage
/// are its terms.
impl Tokenize for AttackRoll {
    open spec fn tokens(&self) -> Set<Seq<char>> {
        attack_texts(*self)
    }

    fn tokenize(&self) -> (tokens: ListSet<String>) {
        let mut tokens: ListSet<String> = ListSet::new();
        tokens.insert(self.name.clone());
        tokens.insert(self.attack_type.to_str().to_owned());
        let labels = self.damage.tokenize();
        tokens.extend(&labels);
        tokens
    }
}

/// The terms of all attacks together.
impl Tokenize for Vec<AttackRoll> {
    open spec fn tokens(&self) -> Set<Seq<char>> {
        attacks_texts(self@)
    }

    fn tokenize(&self) -> (tokens: ListSet<String>) {
        let mut tokens: ListSet<String> = ListSet::new();
        let mut i: usize = 0;
        while i < self.len()
            invariant
                i <= self.len(),
                tokens@ == attacks_texts(self@.take(i as int)),
            decreases self.len() - i,
        {
            let texts = self[i].tokenize();
            tokens.extend(&texts);
            proof {
                let longer = self@.take(i + 1);
                let shorter = self@.take(i as int);
                let added = attack_texts(self@[i as int]);
                assert forall|text: Seq<char>|
                    attacks_texts(shorter).union(added).contains(text) implies attacks_texts(
                    longer,
                ).contains(text) by {
                    if !attacks_texts(shorter).contains(text) {
                        assert(attack_texts(longer[i as int]).contains(text));
                    }
                }
            }
            i += 1;
        }
        assert(self@.take(i as int) =~= self@);
        tokens
    }
}

/// The listed actions, as they stand, and the terms of the attacks.
impl Tokenize for Actions {
    open spec fn tokens(&self) -> Set<Seq<char>> {
        action_texts(*self)
    }

    fn tokenize(&self) -> (tokens: ListSet<String>) {
        let mut tokens: ListSet<String> = ListSet::new();
        let mut i: usize = 0;
        while i < self.list.len()
            invariant
                i <= self.list.len(),
                tokens@ == text_set(self.list@.take(i as int)),
            decreases self.list.len() - i,
        {
            tokens.insert(self.list[i].clone());
            proof {
                lemma_text_set_take(self.list@, i as int);
            }
            i += 1;
        }
        assert(self.list@.take(i as int) =~= self.list@);
        let attacks = self.attack_rolls.tokenize();
        tokens.extend(&attacks);
        tokens
    }
}

/// The tokens of every text that the record is searched by: lowercase words
/// of letters and digits.
impl Tokenize for Monster {
    open spec fn tokens(&self) -> Set<Seq<char>> {
        tokens_from(source_texts(*self))
    }

    fn tokenize(&self) -> (tokens: ListSet<String>) {
        let mut tokens: ListSet<String> = ListSet::new();
        let ghost fixed = set![
            self.name@,
            self.size.label(),
            self.creature_type@,
            self.alignment@,
        ];
        tokenize_text(self.name.as_str(), &mut tokens);
        tokenize_text(self.size.to_str(), &mut tokens);
        tokenize_text(self.creature_type.as_str(), &mut tokens);
        tokenize_text(self.alignment.as_str(), &mut tokens);
        proof {
            let none = Set::<Seq<char>>::empty();
            lemma_tokens_from_nothing();
            lemma_tokens_from_insert(none, self.name@);
            lemma_tokens_from_insert(none.insert(self.name@), self.size.label());
            lemma_tokens_from_insert(
                none.insert(self.name@).insert(self.size.label()),
                self.creature_type@,
            );
            lemma_tokens_from_insert(
                none.insert(self.name@).insert(self.size.label()).insert(self.creature_type@),
                self.alignment@,
            );
        }
        tokenize_all(&self.languages, &mut tokens);
        tokenize_all(&self.traits, &mut tokens);
        let ghost described = optional_action_texts(self.actions);
        match &self.actions {
            Some(actions) => {
                let texts = actions.tokenize();
                let items = texts.items();
                tokenize_all(items, &mut tokens);
            },
            None => {
                proof {
                    lemma_tokens_from_nothing();
                }
            },
        }
        proof {
            lemma_tokens_from_union(fixed, text_set(self.languages@));
            lemma_tokens_from_union(
                fixed.union(text_set(self.languages@)),
                text_set(self.traits@),
            );
            lemma_tokens_from_union(
                fixed.union(text_set(self.languages@)).union(text_set(self.traits@)),
                described,
            );
        }
        tokens
    }
}

} // verus!

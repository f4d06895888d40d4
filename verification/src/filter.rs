//! Filters that tell which events of the stream go to which reader.
//!
//! A filter has up to three clauses. `subscribes` tests the author of an
//! event; `keywords` and `langs` test the content of the posts of a commit.
//! A commit of a subscribed author matches unless the content is excluded; a
//! commit of anyone else matches when the content is included. A filter
//! without any clause matches every event.
use crate::api::{AppBskyFeedPost, ComAtprotoSyncSubscribereposMainMessage};
use crate::event::Event;
use crate::text::{contains, is_substring, str_eq};
use vstd::prelude::*;

verus! {

/// Why a change to a filter was refused.
#[derive(Debug, Clone, Copy, PartialEq, Eq, Structural)]
pub enum FilterError {
    /// The filter subscribes to no repositories at all.
    NoSuchDid,
    /// The filter subscribes to no handles at all.
    NoSuchHandle,
    /// No filter has the name.
    NoSuchFilter,
}

/// `s` without the elements equal to `x`.
pub open spec fn without(s: Seq<Seq<char>>, x: Seq<char>) -> Seq<Seq<char>>
    decreases s.len(),
{
    if s.len() == 0 {
        Seq::empty()
    } else if s.last() == x {
        without(s.drop_last(), x)
    } else {
        without(s.drop_last(), x).push(s.last())
    }
}

/// `s` with `x` at the end, unless `s` has `x` already.
pub open spec fn with_once(s: Seq<Seq<char>>, x: Seq<char>) -> Seq<Seq<char>> {
    if s.contains(x) {
        s
    } else {
        s.push(x)
    }
}

/// `acc` followed by those of the first `n` elements of `s` that did not
/// occur before, each once.
pub open spec fn merged(acc: Seq<Seq<char>>, s: Seq<Seq<char>>, n: int) -> Seq<Seq<char>>
    decreases n,
{
    if n <= 0 || n > s.len() {
        acc
    } else {
        with_once(merged(acc, s, n - 1), s[n - 1])
    }
}

/// Some word is part of some text.
pub open spec fn keyword_hit(words: Seq<Seq<char>>, texts: Seq<Seq<char>>) -> bool {
    exists|k: int, j: int|
        0 <= k < texts.len() && 0 <= j < words.len() && is_substring(
            #[trigger] words[j],
            #[trigger] texts[k],
        )
}

/// The code is among the languages, where there are any.
pub open spec fn lang_in(langs: Option<Seq<Seq<char>>>, code: Seq<char>) -> bool {
    langs matches Some(l) && l.contains(code)
}

/// Some code is among the languages of some post.
pub open spec fn lang_hit(codes: Seq<Seq<char>>, langs: Seq<Option<Seq<Seq<char>>>>) -> bool {
    exists|k: int, j: int|
        0 <= k < langs.len() && 0 <= j < codes.len() && lang_in(
            #[trigger] langs[k],
            #[trigger] codes[j],
        )
}

/// The texts of a list of posts.
pub open spec fn texts_of(posts: Seq<AppBskyFeedPost>) -> Seq<Seq<char>> {
    Seq::new(posts.len(), |k: int| posts[k].text@)
}

/// The languages of a list of posts.
pub open spec fn langs_of(posts: Seq<AppBskyFeedPost>) -> Seq<Option<Seq<Seq<char>>>> {
    Seq::new(posts.len(), |k: int| posts[k].langs.deep_view())
}

/// Whether `x` is among the strings of `v`.
pub fn has_string(v: &Vec<String>, x: &str) -> (r: bool)
    ensures
        r == v.deep_view().contains(x@),
{
    let mut i: usize = 0;
    while i < v.len()
        invariant
            i <= v.len(),
            forall|k: int| 0 <= k < i ==> v.deep_view()[k] != x@,
        decreases v.len() - i,
    {
        if str_eq(v[i].as_str(), x) {
            assert(v.deep_view()[i as int] == x@);
            return true;
        }
        i += 1;
    }
    false
}

/// The strings of `v` that differ from `x`, in order.
pub fn remove_string(v: &Vec<String>, x: &str) -> (r: Vec<String>)
    ensures
        r.deep_view() == without(v.deep_view(), x@),
{
    let mut out: Vec<String> = Vec::new();
    let mut i: usize = 0;
    assert(v.deep_view().take(0) =~= Seq::empty());
    while i < v.len()
        invariant
            i <= v.len(),
            out.deep_view() == without(v.deep_view().take(i as int), x@),
        decreases v.len() - i,
    {
        proof {
            assert(v.deep_view().take(i + 1).drop_last() =~= v.deep_view().take(i as int));
            assert(v.deep_view().take(i + 1).last() == v[i as int]@);
        }
        if !str_eq(v[i].as_str(), x) {
            let ghost before = out.deep_view();
            out.push(v[i].clone());
            assert(out.deep_view() =~= before.push(v[i as int]@));
        }
        i += 1;
    }
    assert(v.deep_view().take(i as int) =~= v.deep_view());
    out
}

/// A copy of a list of strings.
pub fn clone_strings(v: &Vec<String>) -> (r: Vec<String>)
    ensures
        r.deep_view() == v.deep_view(),
{
    let mut out: Vec<String> = Vec::new();
    let mut i: usize = 0;
    while i < v.len()
        invariant
            i <= v.len(),
            out.len() == i,
            forall|k: int| 0 <= k < i ==> out[k]@ == v[k]@,
        decreases v.len() - i,
    {
        out.push(v[i].clone());
        i += 1;
    }
    assert(out.deep_view() =~= v.deep_view());
    out
}

/// A copy of an optional list of strings.
pub fn clone_opt_strings(v: &Option<Vec<String>>) -> (r: Option<Vec<String>>)
    ensures
        r.deep_view() == v.deep_view(),
{
    match v {
        Some(l) => Some(clone_strings(l)),
        None => None,
    }
}

/// Filter by repository (DID or handle) to which you are subscribed
#[derive(Debug, Clone, PartialEq, Eq)]
pub struct Subscribes {
    pub dids: Option<Vec<String>>,
    pub handles: Option<Vec<String>>,
}

/// The mathematical value of a [`Subscribes`].
pub struct SubscribesView {
    pub dids: Option<Seq<Seq<char>>>,
    pub handles: Option<Seq<Seq<char>>>,
}

impl DeepView for Subscribes {
    type V = SubscribesView;

    open spec fn deep_view(&self) -> SubscribesView {
        SubscribesView { dids: self.dids.deep_view(), handles: self.handles.deep_view() }
    }
}

impl SubscribesView {
    /// The repository is among the subscribed ones. Handles do not count:
    /// they are resolved to DIDs beforehand.
    pub open spec fn has_did(self, repo: Seq<char>) -> bool {
        self.dids matches Some(d) && d.contains(repo)
    }
}

impl Subscribes {
    /// Subscribes to nothing, with both lists absent.
    pub fn default() -> (r: Subscribes)
        ensures
            r.deep_view() == (SubscribesView { dids: None, handles: None }),
    {
        Subscribes { dids: None, handles: None }
    }

    /// A copy of the clause.
    pub fn duplicate(&self) -> (r: Subscribes)
        ensures
            r.deep_view() == self.deep_view(),
    {
        Subscribes { dids: clone_opt_strings(&self.dids), handles: clone_opt_strings(&self.handles) }
    }

    /// Returns whether or not the filter is matched
    pub fn is_match(&self, repo: &str) -> (r: bool)
        ensures
            r == self.deep_view().has_did(repo@),
    {
        match &self.dids {
            Some(dids) => has_string(dids, repo),
            None => false,
        }
    }

    /// Add a repository to subscribe
    pub fn subscribe_repo(&mut self, did: &str) -> (r: Result<(), FilterError>)
        ensures
            r is Ok,
            final(self).deep_view().handles == old(self).deep_view().handles,
            final(self).deep_view().dids == Some(
                match old(self).deep_view().dids {
                    Some(d) => d.push(did@),
                    None => seq![did@],
                },
            ),
    {
        match &mut self.dids {
            Some(dids) => {
                let ghost before = dids.deep_view();
                dids.push(did.to_string());
                assert(dids.deep_view() =~= before.push(did@));
            },
            None => {
                let mut v: Vec<String> = Vec::new();
                v.push(did.to_string());
                assert(v.deep_view() =~= seq![did@]);
                self.dids = Some(v);
            },
        }
        Ok(())
    }

    /// Remove a repository to subscribe
    pub fn unsubscribe_repo(&mut self, did: &str) -> (r: Result<(), FilterError>)
        ensures
            final(self).deep_view().handles == old(self).deep_view().handles,
            match old(self).deep_view().dids {
                Some(d) => r is Ok && final(self).deep_view().dids == Some(without(d, did@)),
                None => r == Err::<(), FilterError>(FilterError::NoSuchDid) && final(self).deep_view().dids is None,
            },
    {
        match &self.dids {
            Some(dids) => {
                let kept = remove_string(dids, did);
                self.dids = Some(kept);
                Ok(())
            },
            None => Err(FilterError::NoSuchDid),
        }
    }

    /// Add a handle to subscribe
    pub fn subscribe_handle(&mut self, handle: &str) -> (r: Result<(), FilterError>)
        ensures
            r is Ok,
            final(self).deep_view().dids == old(self).deep_view().dids,
            final(self).deep_view().handles == Some(
                match old(self).deep_view().handles {
                    Some(h) => with_once(h, handle@),
                    None => seq![handle@],
                },
            ),
    {
        match &mut self.handles {
            Some(handles) => {
                if !has_string(handles, handle) {
                    let ghost before = handles.deep_view();
                    handles.push(handle.to_string());
                    assert(handles.deep_view() =~= before.push(handle@));
                }
            },
            None => {
                let mut v: Vec<String> = Vec::new();
                v.push(handle.to_string());
                assert(v.deep_view() =~= seq![handle@]);
                self.handles = Some(v);
            },
        }
        Ok(())
    }

    /// Remove a handle to subscribe
    pub fn unsubscribe_handle(&mut self, handle: &str) -> (r: Result<(), FilterError>)
        ensures
            final(self).deep_view().dids == old(self).deep_view().dids,
            match old(self).deep_view().handles {
                Some(h) => r is Ok && final(self).deep_view().handles == Some(without(h, handle@)),
                None => r == Err::<(), FilterError>(FilterError::NoSuchHandle) && final(self).deep_view().handles is None,
            },
    {
        match &self.handles {
            Some(handles) => {
                let kept = remove_string(handles, handle);
                self.handles = Some(kept);
                Ok(())
            },
            None => Err(FilterError::NoSuchHandle),
        }
    }
}

/// Whether some word of `words` is part of some post's text.
fn any_keyword(words: &Vec<String>, posts: &[AppBskyFeedPost]) -> (r: bool)
    ensures
        r == keyword_hit(words.deep_view(), texts_of(posts@)),
{
    let ghost w = words.deep_view();
    let ghost t = texts_of(posts@);
    let mut k: usize = 0;
    while k < posts.len()
        invariant
            k <= posts.len(),
            w == words.deep_view(),
            t == texts_of(posts@),
            forall|a: int, b: int|
                0 <= a < k && 0 <= b < w.len() ==> !is_substring(#[trigger] w[b], #[trigger] t[a]),
        decreases posts.len() - k,
    {
        let mut j: usize = 0;
        while j < words.len()
            invariant
                j <= words.len(),
                k < posts.len(),
                w == words.deep_view(),
                t == texts_of(posts@),
                forall|a: int, b: int|
                    0 <= a < k && 0 <= b < w.len() ==> !is_substring(
                        #[trigger] w[b],
                        #[trigger] t[a],
                    ),
                forall|b: int| 0 <= b < j ==> !is_substring(#[trigger] w[b], t[k as int]),
            decreases words.len() - j,
        {
            if contains(posts[k].text.as_str(), words[j].as_str()) {
                assert(is_substring(w[j as int], t[k as int]));
                return true;
            }
            j += 1;
        }
        k += 1;
    }
    false
}

/// Whether some code of `codes` is among the languages of some post.
fn any_lang(codes: &Vec<String>, posts: &[AppBskyFeedPost]) -> (r: bool)
    ensures
        r == lang_hit(codes.deep_view(), langs_of(posts@)),
{
    let ghost w = codes.deep_view();
    let ghost t = langs_of(posts@);
    let mut k: usize = 0;
    while k < posts.len()
        invariant
            k <= posts.len(),
            w == codes.deep_view(),
            t == langs_of(posts@),
            forall|a: int, b: int|
                0 <= a < k && 0 <= b < w.len() ==> !lang_in(#[trigger] t[a], #[trigger] w[b]),
        decreases posts.len() - k,
    {
        match &posts[k].langs {
            Some(langs) => {
                let mut j: usize = 0;
                while j < codes.len()
                    invariant
                        j <= codes.len(),
                        k < posts.len(),
                        w == codes.deep_view(),
                        t == langs_of(posts@),
                        t[k as int] == Some(langs.deep_view()),
                        forall|b: int| 0 <= b < j ==> !langs.deep_view().contains(#[trigger] w[b]),
                    decreases codes.len() - j,
                {
                    if has_string(langs, codes[j].as_str()) {
                        assert(lang_in(t[k as int], w[j as int]));
                        return true;
                    }
                    j += 1;
                }
            },
            None => {
                assert(t[k as int] is None);
            },
        }
        k += 1;
    }
    false
}

/// Filter by Keyword
#[derive(Debug, Clone, PartialEq, Eq)]
pub struct Keywords {
    pub includes: Option<Vec<String>>,
    pub excludes: Option<Vec<String>>,
}

/// The mathematical value of a [`Keywords`] or a [`Langs`].
pub struct WordsView {
    pub includes: Option<Seq<Seq<char>>>,
    pub excludes: Option<Seq<Seq<char>>>,
}

impl DeepView for Keywords {
    type V = WordsView;

    open spec fn deep_view(&self) -> WordsView {
        WordsView { includes: self.includes.deep_view(), excludes: self.excludes.deep_view() }
    }
}

impl Keywords {
    /// A copy of the clause.
    pub fn duplicate(&self) -> (r: Keywords)
        ensures
            r.deep_view() == self.deep_view(),
    {
        Keywords {
            includes: clone_opt_strings(&self.includes),
            excludes: clone_opt_strings(&self.excludes),
        }
    }

    /// Returns whether a keyword to include is part of a post's text
    pub fn includes(&self, posts: &[AppBskyFeedPost]) -> (r: bool)
        ensures
            r == (self.deep_view().includes matches Some(w) && keyword_hit(w, texts_of(posts@))),
    {
        match &self.includes {
            Some(words) => any_keyword(words, posts),
            None => false,
        }
    }

    /// Returns whether a keyword to exclude is part of a post's text
    pub fn excludes(&self, posts: &[AppBskyFeedPost]) -> (r: bool)
        ensures
            r == (self.deep_view().excludes matches Some(w) && keyword_hit(w, texts_of(posts@))),
    {
        match &self.excludes {
            Some(words) => any_keyword(words, posts),
            None => false,
        }
    }
}

/// Filter by Language
#[derive(Debug, Clone, PartialEq, Eq)]
pub struct Langs {
    pub includes: Option<Vec<String>>,
    pub excludes: Option<Vec<String>>,
}

impl DeepView for Langs {
    type V = WordsView;

    open spec fn deep_view(&self) -> WordsView {
        WordsView { includes: self.includes.deep_view(), excludes: self.excludes.deep_view() }
    }
}

impl Langs {
    /// A copy of the clause.
    pub fn duplicate(&self) -> (r: Langs)
        ensures
            r.deep_view() == self.deep_view(),
    {
        Langs {
            includes: clone_opt_strings(&self.includes),
            excludes: clone_opt_strings(&self.excludes),
        }
    }

    /// Returns whether a language to include is among a post's languages
    pub fn includes(&self, posts: &[AppBskyFeedPost]) -> (r: bool)
        ensures
            r == (self.deep_view().includes matches Some(w) && lang_hit(w, langs_of(posts@))),
    {
        match &self.includes {
            Some(codes) => any_lang(codes, posts),
            None => false,
        }
    }

    /// Returns whether a language to exclude is among a post's languages
    pub fn excludes(&self, posts: &[AppBskyFeedPost]) -> (r: bool)
        ensures
            r == (self.deep_view().excludes matches Some(w) && lang_hit(w, langs_of(posts@))),
    {
        match &self.excludes {
            Some(codes) => any_lang(codes, posts),
            None => false,
        }
    }
}

/// Filter
#[derive(Debug, Clone, PartialEq, Eq)]
pub struct Filter {
    pub name: String,
    pub subscribes: Option<Subscribes>,
    pub keywords: Option<Keywords>,
    pub langs: Option<Langs>,
}

/// The mathematical value of a [`Filter`].
pub struct FilterView {
    pub name: Seq<char>,
    pub subscribes: Option<SubscribesView>,
    pub keywords: Option<WordsView>,
    pub langs: Option<WordsView>,
}

impl DeepView for Filter {
    type V = FilterView;

    open spec fn deep_view(&self) -> FilterView {
        FilterView {
            name: self.name@,
            subscribes: self.subscribes.deep_view(),
            keywords: self.keywords.deep_view(),
            langs: self.langs.deep_view(),
        }
    }
}

/// The four changes to what a filter subscribes to.
#[derive(Debug, Clone, Copy, PartialEq, Eq, Structural)]
pub enum Change {
    SubscribeRepo,
    UnsubscribeRepo,
    SubscribeHandle,
    UnsubscribeHandle,
}

/// The DID that a table of resolved handles gives for `handle`: that of the
/// first entry among the first `n` with the handle.
pub open spec fn resolved_did(table: Seq<(Seq<char>, Seq<char>)>, handle: Seq<char>, n: int) -> Option<
    Seq<char>,
>
    decreases n,
{
    if n <= 0 || n > table.len() {
        None
    } else {
        match resolved_did(table, handle, n - 1) {
            Some(d) => Some(d),
            None => if table[n - 1].0 == handle {
                Some(table[n - 1].1)
            } else {
                None
            },
        }
    }
}

/// `acc` followed by the DIDs of those of the first `n` handles that the
/// table resolves, each DID once.
pub open spec fn merged_resolved(
    acc: Seq<Seq<char>>,
    table: Seq<(Seq<char>, Seq<char>)>,
    handles: Seq<Seq<char>>,
    n: int,
) -> Seq<Seq<char>>
    decreases n,
{
    if n <= 0 || n > handles.len() {
        acc
    } else {
        let before = merged_resolved(acc, table, handles, n - 1);
        match resolved_did(table, handles[n - 1], table.len() as int) {
            Some(d) => with_once(before, d),
            None => before,
        }
    }
}

impl SubscribesView {
    /// The clause after `change` with `arg`, and the error where the change is
    /// refused.
    pub open spec fn changed(self, change: Change, arg: Seq<char>) -> (SubscribesView, Option<
        FilterError,
    >) {
        match change {
            Change::SubscribeRepo => (
                SubscribesView {
                    dids: Some(
                        match self.dids {
                            Some(d) => d.push(arg),
                            None => seq![arg],
                        },
                    ),
                    handles: self.handles,
                },
                None,
            ),
            Change::UnsubscribeRepo => match self.dids {
                Some(d) => (SubscribesView { dids: Some(without(d, arg)), handles: self.handles }, None),
                None => (self, Some(FilterError::NoSuchDid)),
            },
            Change::SubscribeHandle => (
                SubscribesView {
                    dids: self.dids,
                    handles: Some(
                        match self.handles {
                            Some(h) => with_once(h, arg),
                            None => seq![arg],
                        },
                    ),
                },
                None,
            ),
            Change::UnsubscribeHandle => match self.handles {
                Some(h) => (SubscribesView { dids: self.dids, handles: Some(without(h, arg)) }, None),
                None => (self, Some(FilterError::NoSuchHandle)),
            },
        }
    }

    /// The clause after the handles are resolved through `table`: the DIDs
    /// subscribed to, each once, then the DIDs of the handles that were not
    /// among them; no list at all where that leaves none. A clause without a
    /// list of handles stays as it is.
    pub open spec fn initialized(self, table: Seq<(Seq<char>, Seq<char>)>) -> SubscribesView {
        match self.handles {
            Some(h) => {
                let own = match self.dids {
                    Some(d) => merged(Seq::empty(), d, d.len() as int),
                    None => Seq::empty(),
                };
                let all = merged_resolved(own, table, h, h.len() as int);
                SubscribesView {
                    dids: if all.len() == 0 {
                        None
                    } else {
                        Some(all)
                    },
                    handles: self.handles,
                }
            },
            None => self,
        }
    }
}

impl FilterView {
    /// The filter after `change` with `arg`, and the error where the change is
    /// refused. Subscribing gives a filter without the clause an empty one
    /// first; unsubscribing from such a filter is refused.
    pub open spec fn changed(self, change: Change, arg: Seq<char>) -> (FilterView, Option<
        FilterError,
    >) {
        match self.subscribes {
            Some(s) => (
                FilterView { subscribes: Some(s.changed(change, arg).0), ..self },
                s.changed(change, arg).1,
            ),
            None => match change {
                Change::SubscribeRepo | Change::SubscribeHandle => (
                    FilterView {
                        subscribes: Some(
                            (SubscribesView { dids: None, handles: None }).changed(change, arg).0,
                        ),
                        ..self
                    },
                    None,
                ),
                Change::UnsubscribeRepo => (self, Some(FilterError::NoSuchDid)),
                Change::UnsubscribeHandle => (self, Some(FilterError::NoSuchHandle)),
            },
        }
    }

    /// The filter after its handles are resolved through `table`.
    pub open spec fn initialized(self, table: Seq<(Seq<char>, Seq<char>)>) -> FilterView {
        match self.subscribes {
            Some(s) => FilterView { subscribes: Some(s.initialized(table)), ..self },
            None => self,
        }
    }

    /// The filter has no clause at all.
    pub open spec fn is_open(self) -> bool {
        self.subscribes is None && self.keywords is None && self.langs is None
    }

    /// The author is subscribed to.
    pub open spec fn author_hit(self, repo: Seq<char>) -> bool {
        self.subscribes matches Some(s) && s.has_did(repo)
    }

    /// The content is included: a keyword to include is part of a post's
    /// text, or a language to include is among a post's languages.
    pub open spec fn content_hit(
        self,
        texts: Seq<Seq<char>>,
        langs: Seq<Option<Seq<Seq<char>>>>,
    ) -> bool {
        ||| (self.keywords matches Some(k) && k.includes matches Some(w) && keyword_hit(w, texts))
        ||| (self.langs matches Some(l) && l.includes matches Some(w) && lang_hit(w, langs))
    }

    /// The content is excluded: a keyword to exclude is part of a post's
    /// text, or a language to exclude is among a post's languages.
    pub open spec fn content_veto(
        self,
        texts: Seq<Seq<char>>,
        langs: Seq<Option<Seq<Seq<char>>>>,
    ) -> bool {
        ||| (self.keywords matches Some(k) && k.excludes matches Some(w) && keyword_hit(w, texts))
        ||| (self.langs matches Some(l) && l.excludes matches Some(w) && lang_hit(w, langs))
    }

    /// Whether a commit by `repo` with posts of these texts and languages
    /// matches: the author is subscribed to and the content is not excluded, or
    /// the author is not subscribed to and the content is included.
    pub open spec fn matches_posts(
        self,
        repo: Seq<char>,
        texts: Seq<Seq<char>>,
        langs: Seq<Option<Seq<Seq<char>>>>,
    ) -> bool {
        (self.author_hit(repo) && !self.content_veto(texts, langs)) || (!self.author_hit(repo)
            && self.content_hit(texts, langs))
    }

    /// Whether the event matches. A filter without clauses matches all. A
    /// commit matches by its author and the content of its posts, a change of
    /// handle by its account; every other event matches.
    pub open spec fn matches(self, event: Event) -> bool {
        if self.is_open() {
            true
        } else {
            match event.payload {
                ComAtprotoSyncSubscribereposMainMessage::ComAtprotoSyncSubscribereposCommit(c) => {
                    self.matches_posts(c.repo@, c.post_texts(), c.post_langs())
                },
                ComAtprotoSyncSubscribereposMainMessage::ComAtprotoSyncSubscribereposHandle(h) => {
                    self.author_hit(h.did@)
                },
                _ => true,
            }
        }
    }
}

/// The filter named `name` whose three clauses are there and empty.
pub open spec fn empty_filter(name: Seq<char>) -> FilterView {
    FilterView {
        name,
        subscribes: Some(SubscribesView { dids: Some(Seq::empty()), handles: Some(Seq::empty()) }),
        keywords: Some(WordsView { includes: Some(Seq::empty()), excludes: Some(Seq::empty()) }),
        langs: Some(WordsView { includes: Some(Seq::empty()), excludes: Some(Seq::empty()) }),
    }
}

/// Looks a handle up in a table of resolved handles.
pub fn lookup_did(table: &Vec<(String, String)>, handle: &str) -> (r: Option<String>)
    ensures
        r.deep_view() == resolved_did(table.deep_view(), handle@, table.len() as int),
{
    let mut i: usize = 0;
    while i < table.len()
        invariant
            i <= table.len(),
            resolved_did(table.deep_view(), handle@, i as int) is None,
        decreases table.len() - i,
    {
        if str_eq(table[i].0.as_str(), handle) {
            proof {
                assert(table.deep_view()[i as int] == (table[i as int].0@, table[i as int].1@));
                assert(resolved_did(table.deep_view(), handle@, i + 1) == Some(table[i as int].1@));
                lemma_resolved_stable(table.deep_view(), handle@, i + 1, table.len() as int);
            }
            return Some(table[i].1.clone());
        }
        proof {
            assert(table.deep_view()[i as int] == (table[i as int].0@, table[i as int].1@));
        }
        i += 1;
    }
    None
}

proof fn lemma_resolved_stable(table: Seq<(Seq<char>, Seq<char>)>, handle: Seq<char>, i: int, n: int)
    requires
        0 <= i <= n <= table.len(),
        resolved_did(table, handle, i) is Some,
    ensures
        resolved_did(table, handle, n) == resolved_did(table, handle, i),
    decreases n - i,
{
    if i < n {
        lemma_resolved_stable(table, handle, i, n - 1);
    }
}

/// Appends `x` to `acc` unless it is there already.
fn push_once(acc: &mut Vec<String>, x: &str)
    ensures
        final(acc).deep_view() == with_once(old(acc).deep_view(), x@),
{
    if !has_string(acc, x) {
        let ghost before = acc.deep_view();
        acc.push(x.to_string());
        assert(acc.deep_view() =~= before.push(x@));
    }
}

impl Filter {
    /// A filter without a name whose three clauses are there and empty.
    pub fn default() -> (r: Filter)
        ensures
            r.deep_view() == empty_filter(Seq::empty()),
    {
        let r = Filter {
            name: String::new(),
            subscribes: Some(Subscribes { dids: Some(Vec::new()), handles: Some(Vec::new()) }),
            keywords: Some(Keywords { includes: Some(Vec::new()), excludes: Some(Vec::new()) }),
            langs: Some(Langs { includes: Some(Vec::new()), excludes: Some(Vec::new()) }),
        };
        proof {
            assert(r.subscribes.unwrap().dids.unwrap().deep_view() =~= Seq::empty());
            assert(r.subscribes.unwrap().handles.unwrap().deep_view() =~= Seq::empty());
            assert(r.keywords.unwrap().includes.unwrap().deep_view() =~= Seq::empty());
            assert(r.keywords.unwrap().excludes.unwrap().deep_view() =~= Seq::empty());
            assert(r.langs.unwrap().includes.unwrap().deep_view() =~= Seq::empty());
            assert(r.langs.unwrap().excludes.unwrap().deep_view() =~= Seq::empty());
        }
        r
    }

    /// A copy of the filter.
    pub fn duplicate(&self) -> (r: Filter)
        ensures
            r.deep_view() == self.deep_view(),
    {
        Filter {
            name: self.name.clone(),
            subscribes: match &self.subscribes {
                Some(s) => Some(s.duplicate()),
                None => None,
            },
            keywords: match &self.keywords {
                Some(k) => Some(k.duplicate()),
                None => None,
            },
            langs: match &self.langs {
                Some(l) => Some(l.duplicate()),
                None => None,
            },
        }
    }

    /// Convert the handles in the filter to DIDs, by a table of handles
    /// that were resolved beforehand, and add them to the DIDs subscribed to.
    pub fn init(&mut self, table: &Vec<(String, String)>)
        ensures
            final(self).deep_view() == old(self).deep_view().initialized(table.deep_view()),
    {
        let ghost start = self.deep_view();
        match &mut self.subscribes {
            Some(follows) => {
                match &follows.handles {
                    Some(handles) => {
                        let mut all: Vec<String> = Vec::new();
                        assert(all.deep_view() =~= Seq::empty());
                        match &follows.dids {
                            Some(dids) => {
                                let mut i: usize = 0;
                                while i < dids.len()
                                    invariant
                                        i <= dids.len(),
                                        all.deep_view() == merged(
                                            Seq::empty(),
                                            dids.deep_view(),
                                            i as int,
                                        ),
                                    decreases dids.len() - i,
                                {
                                    push_once(&mut all, dids[i].as_str());
                                    i += 1;
                                }
                            },
                            None => {},
                        }
                        let ghost own = all.deep_view();
                        let mut j: usize = 0;
                        while j < handles.len()
                            invariant
                                j <= handles.len(),
                                all.deep_view() == merged_resolved(
                                    own,
                                    table.deep_view(),
                                    handles.deep_view(),
                                    j as int,
                                ),
                            decreases handles.len() - j,
                        {
                            match lookup_did(table, handles[j].as_str()) {
                                Some(did) => push_once(&mut all, did.as_str()),
                                None => {},
                            }
                            j += 1;
                        }
                        if all.len() == 0 {
                            follows.dids = None;
                        } else {
                            follows.dids = Some(all);
                        }
                    },
                    None => {},
                }
            },
            None => {},
        }
    }

    /// Returns whether or not the filter is matched
    pub fn is_match(&self, event: &Event) -> (r: bool)
        ensures
            r == self.deep_view().matches(*event),
    {
        if self.subscribes.is_none() && self.keywords.is_none() && self.langs.is_none() {
            return true;
        }
        match &event.payload {
            ComAtprotoSyncSubscribereposMainMessage::ComAtprotoSyncSubscribereposCommit(c) => {
                let posts = c.get_post_records();
                proof {
                    assert(texts_of(posts@) =~= c.post_texts());
                    assert(langs_of(posts@) =~= c.post_langs());
                }
                self.is_posts_match(c.repo.as_str(), posts.as_slice())
            },
            ComAtprotoSyncSubscribereposMainMessage::ComAtprotoSyncSubscribereposHandle(h) => {
                match &self.subscribes {
                    Some(f) => f.is_match(h.did.as_str()),
                    None => false,
                }
            },
            _ => true,
        }
    }

    /// Returns whether a commit by `repo` that holds `posts` matches the
    /// clauses of the filter.
    pub fn is_posts_match(&self, repo: &str, posts: &[AppBskyFeedPost]) -> (r: bool)
        ensures
            r == self.deep_view().matches_posts(repo@, texts_of(posts@), langs_of(posts@)),
    {
        let author = match &self.subscribes {
            Some(f) => f.is_match(repo),
            None => false,
        };
        if author {
            let k = match &self.keywords {
                Some(k) => k.excludes(posts),
                None => false,
            };
            let l = match &self.langs {
                Some(l) => l.excludes(posts),
                None => false,
            };
            !k && !l
        } else {
            let k = match &self.keywords {
                Some(k) => k.includes(posts),
                None => false,
            };
            let l = match &self.langs {
                Some(l) => l.includes(posts),
                None => false,
            };
            k || l
        }
    }

    /// Makes one of the four changes to what the filter subscribes to.
    pub fn change(&mut self, change: Change, arg: &str) -> (r: Result<(), FilterError>)
        ensures
            final(self).deep_view() == old(self).deep_view().changed(change, arg@).0,
            match r {
                Ok(_) => old(self).deep_view().changed(change, arg@).1 is None,
                Err(e) => old(self).deep_view().changed(change, arg@).1 == Some(e),
            },
    {
        if self.subscribes.is_none() {
            match change {
                Change::SubscribeRepo | Change::SubscribeHandle => {
                    self.subscribes = Some(Subscribes::default());
                },
                Change::UnsubscribeRepo => {
                    return Err(FilterError::NoSuchDid);
                },
                Change::UnsubscribeHandle => {
                    return Err(FilterError::NoSuchHandle);
                },
            }
        }
        match &mut self.subscribes {
            Some(s) => match change {
                Change::SubscribeRepo => s.subscribe_repo(arg),
                Change::UnsubscribeRepo => s.unsubscribe_repo(arg),
                Change::SubscribeHandle => s.subscribe_handle(arg),
                Change::UnsubscribeHandle => s.unsubscribe_handle(arg),
            },
            None => Ok(()),
        }
    }

    /// Add a repository to subscribe to the Filter
    pub fn subscribe_repo(&mut self, did: &str) -> (r: Result<(), FilterError>)
        ensures
            r is Ok,
            final(self).deep_view() == old(self).deep_view().changed(Change::SubscribeRepo, did@).0,
    {
        self.change(Change::SubscribeRepo, did)
    }

    /// Remove a repository to subscribe to the Filter
    pub fn unsubscribe_repo(&mut self, did: &str) -> (r: Result<(), FilterError>)
        ensures
            final(self).deep_view() == old(self).deep_view().changed(Change::UnsubscribeRepo, did@).0,
            match r {
                Ok(_) => old(self).deep_view().changed(Change::UnsubscribeRepo, did@).1 is None,
                Err(e) => old(self).deep_view().changed(Change::UnsubscribeRepo, did@).1 == Some(e),
            },
    {
        self.change(Change::UnsubscribeRepo, did)
    }

    /// Add a handle to subscribe to the Filter
    pub fn subscribe_handle(&mut self, handle: &str) -> (r: Result<(), FilterError>)
        ensures
            r is Ok,
            final(self).deep_view() == old(self).deep_view().changed(
                Change::SubscribeHandle,
                handle@,
            ).0,
    {
        self.change(Change::SubscribeHandle, handle)
    }

    /// Remove a handle to subscribe to the Filter
    pub fn unsubscribe_handle(&mut self, handle: &str) -> (r: Result<(), FilterError>)
        ensures
            final(self).deep_view() == old(self).deep_view().changed(
                Change::UnsubscribeHandle,
                handle@,
            ).0,
            match r {
                Ok(_) => old(self).deep_view().changed(Change::UnsubscribeHandle, handle@).1 is None,
                Err(e) => old(self).deep_view().changed(Change::UnsubscribeHandle, handle@).1
                    == Some(e),
            },
    {
        self.change(Change::UnsubscribeHandle, handle)
    }
}

/// Matching reads nothing but the filter and the event: equal filters give
/// equal answers on equal events, however often they are asked.
pub proof fn lemma_is_match_pure(f1: Filter, f2: Filter, e1: Event, e2: Event)
    requires
        f1.deep_view() == f2.deep_view(),
        e1 == e2,
    ensures
        f1.deep_view().matches(e1) == f2.deep_view().matches(e2),
{
}

/// Set of filters
#[derive(Debug, Clone, PartialEq, Eq)]
pub struct Filters {
    pub filters: Vec<Filter>,
}

/// The filters of `s` whose name is not `name`, in order.
pub open spec fn without_named(s: Seq<FilterView>, name: Seq<char>) -> Seq<FilterView>
    decreases s.len(),
{
    if s.len() == 0 {
        Seq::empty()
    } else if s.last().name == name {
        without_named(s.drop_last(), name)
    } else {
        without_named(s.drop_last(), name).push(s.last())
    }
}

/// Position of the first filter named `name` among the first `n`, or -1.
pub open spec fn first_named(s: Seq<FilterView>, name: Seq<char>, n: int) -> int
    decreases n,
{
    if n <= 0 || n > s.len() {
        -1
    } else if first_named(s, name, n - 1) >= 0 {
        first_named(s, name, n - 1)
    } else if s[n - 1].name == name {
        n - 1
    } else {
        -1
    }
}

proof fn lemma_first_named_stable(s: Seq<FilterView>, name: Seq<char>, i: int, n: int)
    requires
        0 <= i <= n <= s.len(),
        first_named(s, name, i) >= 0,
    ensures
        first_named(s, name, n) == first_named(s, name, i),
    decreases n - i,
{
    if i < n {
        lemma_first_named_stable(s, name, i, n - 1);
    }
}

/// The filter that a timeline gets: named after the handle, subscribed to
/// the accounts that the handle follows, with empty keyword and language
/// clauses.
pub open spec fn timeline_filter(handle: Seq<char>, follows: Seq<Seq<char>>) -> FilterView {
    FilterView {
        subscribes: Some(SubscribesView { dids: Some(follows), handles: None }),
        ..empty_filter(handle)
    }
}

/// Every filter of `s` after its handles are resolved through `table`.
pub open spec fn all_initialized(s: Seq<FilterView>, table: Seq<(Seq<char>, Seq<char>)>) -> Seq<
    FilterView,
> {
    Seq::new(s.len(), |i: int| s[i].initialized(table))
}

impl Filters {
    /// The two filters that every reader starts with: `All`, which has no
    /// clause and so matches everything, and `Favorites`, whose clauses are
    /// there and empty.
    pub fn default() -> (r: Filters)
        ensures
            r.filters.len() == 2,
            r.filters[0].deep_view() == (FilterView {
                name: "All"@,
                subscribes: None,
                keywords: None,
                langs: None,
            }),
            r.filters[1].deep_view() == empty_filter("Favorites"@),
    {
        let all = Filter { name: "All".to_string(), subscribes: None, keywords: None, langs: None };
        let mut fav = Filter::default();
        fav.name = "Favorites".to_string();
        let mut filters: Vec<Filter> = Vec::new();
        filters.push(all);
        filters.push(fav);
        Filters { filters }
    }

    /// Initialize all included filters
    pub fn init(&mut self, table: &Vec<(String, String)>)
        ensures
            final(self).filters.deep_view() == all_initialized(
                old(self).filters.deep_view(),
                table.deep_view(),
            ),
    {
        let ghost start = self.filters.deep_view();
        let mut out: Vec<Filter> = Vec::new();
        let mut i: usize = 0;
        while i < self.filters.len()
            invariant
                i <= self.filters.len(),
                start == self.filters.deep_view(),
                out.len() == i,
                forall|k: int|
                    0 <= k < i ==> (#[trigger] out[k]).deep_view() == start[k].initialized(
                        table.deep_view(),
                    ),
            decreases self.filters.len() - i,
        {
            let mut f = self.filters[i].duplicate();
            f.init(table);
            out.push(f);
            i += 1;
        }
        self.filters = out;
        assert(self.filters.deep_view() =~= all_initialized(start, table.deep_view()));
    }

    /// The filters whose name is not `name`, copied.
    fn others(&self, name: &str) -> (r: Vec<Filter>)
        ensures
            r.deep_view() == without_named(self.filters.deep_view(), name@),
    {
        let ghost all = self.filters.deep_view();
        let mut out: Vec<Filter> = Vec::new();
        let mut i: usize = 0;
        assert(all.take(0) =~= Seq::empty());
        assert(out.deep_view() =~= Seq::empty());
        while i < self.filters.len()
            invariant
                i <= self.filters.len(),
                all == self.filters.deep_view(),
                out.deep_view() == without_named(all.take(i as int), name@),
            decreases self.filters.len() - i,
        {
            proof {
                assert(all.take(i + 1).drop_last() =~= all.take(i as int));
                assert(all.take(i + 1).last() == self.filters[i as int].deep_view());
            }
            if !str_eq(self.filters[i].name.as_str(), name) {
                let ghost before = out.deep_view();
                out.push(self.filters[i].duplicate());
                assert(out.deep_view() =~= before.push(self.filters[i as int].deep_view()));
            }
            i += 1;
        }
        assert(all.take(i as int) =~= all);
        out
    }

    /// Add user's timeline as a filter: the accounts that `handle` follows,
    /// under the name of the handle. A filter of that name is replaced.
    pub fn add_timeline(&self, handle: &str, follows: Vec<String>) -> (r: Filters)
        ensures
            r.filters.deep_view() == without_named(self.filters.deep_view(), handle@).push(
                timeline_filter(handle@, follows.deep_view()),
            ),
    {
        let mut filters = self.others(handle);
        let ghost before = filters.deep_view();
        let mut f = Filter::default();
        f.name = handle.to_string();
        f.subscribes = Some(Subscribes { dids: Some(follows), handles: None });
        filters.push(f);
        assert(filters.deep_view() =~= before.push(timeline_filter(handle@, follows.deep_view())));
        Filters { filters }
    }

    /// Remove user's timeline as a filter
    pub fn remove_timeline(&mut self, handle: &str)
        ensures
            final(self).filters.deep_view() == without_named(old(self).filters.deep_view(), handle@),
    {
        let kept = self.others(handle);
        self.filters = kept;
    }

    /// Returns all included filters
    pub fn get_filters(&self) -> (r: Vec<Filter>)
        ensures
            r.deep_view() == self.filters.deep_view(),
    {
        let mut out: Vec<Filter> = Vec::new();
        let mut i: usize = 0;
        while i < self.filters.len()
            invariant
                i <= self.filters.len(),
                out.len() == i,
                forall|k: int| 0 <= k < i ==> (#[trigger] out[k]).deep_view() == self.filters[k].deep_view(),
            decreases self.filters.len() - i,
        {
            out.push(self.filters[i].duplicate());
            i += 1;
        }
        assert(out.deep_view() =~= self.filters.deep_view());
        out
    }

    /// Position of the first filter named `name`.
    pub fn position(&self, name: &str) -> (r: Option<usize>)
        ensures
            match r {
                Some(i) => i < self.filters.len() && first_named(
                    self.filters.deep_view(),
                    name@,
                    self.filters.len() as int,
                ) == i,
                None => first_named(self.filters.deep_view(), name@, self.filters.len() as int) < 0,
            },
    {
        let ghost all = self.filters.deep_view();
        let mut i: usize = 0;
        while i < self.filters.len()
            invariant
                i <= self.filters.len(),
                all == self.filters.deep_view(),
                first_named(all, name@, i as int) < 0,
            decreases self.filters.len() - i,
        {
            if str_eq(self.filters[i].name.as_str(), name) {
                proof {
                    assert(all[i as int].name == name@);
                    assert(first_named(all, name@, i + 1) == i);
                    lemma_first_named_stable(all, name@, i + 1, all.len() as int);
                }
                return Some(i);
            }
            proof {
                assert(all[i as int].name == self.filters[i as int].name@);
            }
            i += 1;
        }
        None
    }

    /// Makes one of the four changes to the first filter named `name`.
    pub fn change(&mut self, name: &str, change: Change, arg: &str) -> (r: Result<(), FilterError>)
        ensures
            ({
                let all = old(self).filters.deep_view();
                let i = first_named(all, name@, all.len() as int);
                if i < 0 {
                    &&& r == Err::<(), FilterError>(FilterError::NoSuchFilter)
                    &&& final(self).filters.deep_view() == all
                } else {
                    &&& final(self).filters.deep_view() == all.update(
                        i,
                        all[i].changed(change, arg@).0,
                    )
                    &&& match r {
                        Ok(_) => all[i].changed(change, arg@).1 is None,
                        Err(e) => all[i].changed(change, arg@).1 == Some(e),
                    }
                }
            }),
    {
        let ghost all = self.filters.deep_view();
        match self.position(name) {
            Some(i) => {
                let mut f = self.filters[i].duplicate();
                let r = f.change(change, arg);
                self.filters.set(i, f);
                assert(self.filters.deep_view() =~= all.update(
                    i as int,
                    all[i as int].changed(change, arg@).0,
                ));
                r
            },
            None => Err(FilterError::NoSuchFilter),
        }
    }

    /// Add a repository to subscribe to the Filter given by name
    pub fn subscribe_repo(&mut self, name: &str, did: &str) -> (r: Result<(), FilterError>)
        ensures
            ({
                let all = old(self).filters.deep_view();
                let i = first_named(all, name@, all.len() as int);
                if i < 0 {
                    &&& r == Err::<(), FilterError>(FilterError::NoSuchFilter)
                    &&& final(self).filters.deep_view() == all
                } else {
                    &&& r is Ok
                    &&& final(self).filters.deep_view() == all.update(
                        i,
                        all[i].changed(Change::SubscribeRepo, did@).0,
                    )
                }
            }),
    {
        self.change(name, Change::SubscribeRepo, did)
    }

    /// Remove a repository to subscribe to the Filter given by name
    pub fn unsubscribe_repo(&mut self, name: &str, did: &str) -> (r: Result<(), FilterError>)
        ensures
            ({
                let all = old(self).filters.deep_view();
                let i = first_named(all, name@, all.len() as int);
                if i < 0 {
                    &&& r == Err::<(), FilterError>(FilterError::NoSuchFilter)
                    &&& final(self).filters.deep_view() == all
                } else {
                    &&& final(self).filters.deep_view() == all.update(
                        i,
                        all[i].changed(Change::UnsubscribeRepo, did@).0,
                    )
                    &&& match r {
                        Ok(_) => all[i].changed(Change::UnsubscribeRepo, did@).1 is None,
                        Err(e) => all[i].changed(Change::UnsubscribeRepo, did@).1 == Some(e),
                    }
                }
            }),
    {
        self.change(name, Change::UnsubscribeRepo, did)
    }

    /// Add a handle to subscribe to the Filter given by name
    pub fn subscribe_handle(&mut self, name: &str, handle: &str) -> (r: Result<(), FilterError>)
        ensures
            ({
                let all = old(self).filters.deep_view();
                let i = first_named(all, name@, all.len() as int);
                if i < 0 {
                    &&& r == Err::<(), FilterError>(FilterError::NoSuchFilter)
                    &&& final(self).filters.deep_view() == all
                } else {
                    &&& r is Ok
                    &&& final(self).filters.deep_view() == all.update(
                        i,
                        all[i].changed(Change::SubscribeHandle, handle@).0,
                    )
                }
            }),
    {
        self.change(name, Change::SubscribeHandle, handle)
    }

    /// Remove a handle to subscribe to the Filter given by name
    pub fn unsubscribe_handle(&mut self, name: &str, handle: &str) -> (r: Result<(), FilterError>)
        ensures
            ({
                let all = old(self).filters.deep_view();
                let i = first_named(all, name@, all.len() as int);
                if i < 0 {
                    &&& r == Err::<(), FilterError>(FilterError::NoSuchFilter)
                    &&& final(self).filters.deep_view() == all
                } else {
                    &&& final(self).filters.deep_view() == all.update(
                        i,
                        all[i].changed(Change::UnsubscribeHandle, handle@).0,
                    )
                    &&& match r {
                        Ok(_) => all[i].changed(Change::UnsubscribeHandle, handle@).1 is None,
                        Err(e) => all[i].changed(Change::UnsubscribeHandle, handle@).1 == Some(e),
                    }
                }
            }),
    {
        self.change(name, Change::UnsubscribeHandle, handle)
    }
}

} // verus!

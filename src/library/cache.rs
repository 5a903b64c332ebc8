//! In-memory store of the catalog nodes fetched so far.
use crate::library::request::FindType;
use crate::library::{
    is_infix, lower_of, Album, Artist, Id, ItemView, LibraryItem, LibraryItemKey, NodeView, SearchString, Song,
};
use crate::subsonic::{self, SubsonicData, SubsonicResponse};
use vstd::prelude::*;

verus! {

// Association lists: a sequence of pairs with pairwise distinct keys, read as a map.

/// No key occurs twice.
pub open spec fn keys_unique<K, V>(s: Seq<(K, V)>) -> bool {
    forall|i: int, j: int| 0 <= i < s.len() && 0 <= j < s.len() && s[i].0 == s[j].0 ==> i == j
}

/// Some pair has key `k`.
pub open spec fn has_key<K, V>(s: Seq<(K, V)>, k: K) -> bool {
    exists|i: int| 0 <= i < s.len() && s[i].0 == k
}

/// The map that a list of pairs stands for.
pub open spec fn to_map<K, V>(s: Seq<(K, V)>) -> Map<K, V> {
    Map::new(|k: K| has_key(s, k), |k: K| s[choose|i: int| 0 <= i < s.len() && s[i].0 == k].1)
}

proof fn lemma_to_map_at<K, V>(s: Seq<(K, V)>, i: int)
    requires
        keys_unique(s),
        0 <= i < s.len(),
    ensures
        to_map(s).contains_key(s[i].0),
        to_map(s)[s[i].0] == s[i].1,
{
    assert(has_key(s, s[i].0));
}

proof fn lemma_to_map_update<K, V>(s: Seq<(K, V)>, i: int, v: V)
    requires
        keys_unique(s),
        0 <= i < s.len(),
    ensures
        keys_unique(s.update(i, (s[i].0, v))),
        to_map(s.update(i, (s[i].0, v))) == to_map(s).insert(s[i].0, v),
{
    let t = s.update(i, (s[i].0, v));
    let m = to_map(s).insert(s[i].0, v);
    assert forall|k: K| #[trigger] to_map(t).contains_key(k) == m.contains_key(k) by {
        if has_key(s, k) {
            let j = choose|j: int| 0 <= j < s.len() && s[j].0 == k;
            assert(t[j].0 == k);
        }
        if has_key(t, k) {
            let j = choose|j: int| 0 <= j < t.len() && t[j].0 == k;
            assert(s[j].0 == k);
        }
    }
    assert forall|k: K| #[trigger] to_map(t).contains_key(k) implies to_map(t)[k] == m[k] by {
        let j = choose|j: int| 0 <= j < t.len() && t[j].0 == k;
        lemma_to_map_at(t, j);
        if j != i {
            lemma_to_map_at(s, j);
        }
    }
    assert(to_map(t) =~= m);
}

proof fn lemma_to_map_push<K, V>(s: Seq<(K, V)>, k: K, v: V)
    requires
        keys_unique(s),
        !has_key(s, k),
    ensures
        keys_unique(s.push((k, v))),
        to_map(s.push((k, v))) == to_map(s).insert(k, v),
{
    let t = s.push((k, v));
    let m = to_map(s).insert(k, v);
    assert forall|x: K| #[trigger] to_map(t).contains_key(x) == m.contains_key(x) by {
        if has_key(s, x) {
            let j = choose|j: int| 0 <= j < s.len() && s[j].0 == x;
            assert(t[j].0 == x);
        }
        if x == k {
            assert(t[s.len() as int].0 == k);
        }
    }
    assert forall|x: K| #[trigger] to_map(t).contains_key(x) implies to_map(t)[x] == m[x] by {
        let j = choose|j: int| 0 <= j < t.len() && t[j].0 == x;
        lemma_to_map_at(t, j);
        if j != s.len() {
            lemma_to_map_at(s, j);
        }
    }
    assert(to_map(t) =~= m);
}

/// The abstract form of a list of keys.
pub open spec fn keys_view(s: Seq<LibraryItemKey>) -> Seq<NodeView> {
    s.map_values(|k: LibraryItemKey| k@)
}

/// The abstract form of a list of (key, item) pairs.
pub open spec fn pairs_view(s: Seq<(LibraryItemKey, LibraryItem)>) -> Seq<(NodeView, ItemView)> {
    s.map_values(|p: (LibraryItemKey, LibraryItem)| (p.0@, p.1@))
}

/// What the cache knows of one node.
pub struct EntryView {
    pub item: ItemView,
    /// The node this one was listed under; `None` for nodes directly under the root.
    pub parent: Option<NodeView>,
    /// The node's children in server order; `None` until its own listing was ingested.
    pub children: Option<Seq<NodeView>>,
}

/// The abstract state of a [`LibraryCache`].
pub struct CacheView {
    /// Named groups of artists ("A", "B", ...).
    pub indexes: Map<Seq<char>, Seq<NodeView>>,
    /// The artists under the root, once the root listing was ingested.
    pub root: Option<Seq<NodeView>>,
    pub entries: Map<NodeView, EntryView>,
}

/// Every node of `s` has an entry in `m`.
pub open spec fn all_in(m: Map<NodeView, EntryView>, s: Seq<NodeView>) -> bool {
    forall|j: int| 0 <= j < s.len() ==> m.contains_key(#[trigger] s[j])
}

/// Node `k` is of the kind of item `it`.
pub open spec fn item_of_kind(k: NodeView, it: ItemView) -> bool {
    match it {
        ItemView::Artist(_) => k is Artist,
        ItemView::Album(_) => k is Album,
        ItemView::Song(..) => k is Song,
    }
}

/// Node `child` is of the kind that `parent` lists: artists under the root,
/// albums under an artist, songs under an album; a song lists nothing.
pub open spec fn lists_kind(parent: NodeView, child: NodeView) -> bool {
    match parent {
        NodeView::Root => child is Artist,
        NodeView::Artist(_) => child is Album,
        NodeView::Album(_) => child is Song,
        NodeView::Song(_) => false,
    }
}

/// Every node of `s` is of the kind that `parent` lists.
pub open spec fn all_listed_kind(parent: NodeView, s: Seq<NodeView>) -> bool {
    forall|j: int| 0 <= j < s.len() ==> lists_kind(parent, #[trigger] s[j])
}

/// `s` is a list of artists under the root, each once, each with an entry.
pub open spec fn artist_list(m: Map<NodeView, EntryView>, s: Seq<NodeView>) -> bool {
    &&& all_in(m, s)
    &&& all_listed_kind(NodeView::Root, s)
    &&& s.no_duplicates()
}

/// `e` fits as the entry of node `k` in `m`: its item is of `k`'s kind, and
/// its children, if known, are of the kind that `k` lists and have entries.
pub open spec fn entry_fits(m: Map<NodeView, EntryView>, k: NodeView, e: EntryView) -> bool {
    &&& item_of_kind(k, e.item)
    &&& match e.children {
        Some(c) => all_in(m, c) && all_listed_kind(k, c),
        None => true,
    }
}

impl CacheView {
    /// Each entry fits its node; the root and each index list artists, each
    /// once; every node that a list names has an entry.
    pub open spec fn well_formed(self) -> bool {
        &&& forall|k: NodeView| #[trigger]
            self.entries.contains_key(k) ==> entry_fits(self.entries, k, self.entries[k])
        &&& match self.root {
            Some(c) => artist_list(self.entries, c),
            None => true,
        }
        &&& forall|n: Seq<char>| #[trigger]
            self.indexes.contains_key(n) ==> artist_list(self.entries, self.indexes[n])
    }
}

/// The children of a node, each with its item, as a children list names them.
pub open spec fn listing(m: Map<NodeView, EntryView>, c: Seq<NodeView>) -> Seq<(NodeView, ItemView)> {
    c.map_values(|k: NodeView| (k, m[k].item))
}

/// The children of `k` that the cache can give without a fetch: `None` for a
/// node that is unknown, whose own listing was never ingested, or that is a song.
pub open spec fn children_of(c: CacheView, k: NodeView) -> Option<Seq<(NodeView, ItemView)>> {
    match k {
        NodeView::Root => match c.root {
            Some(r) => Some(listing(c.entries, r)),
            None => None,
        },
        NodeView::Song(_) => None,
        _ => if c.entries.contains_key(k) {
            match c.entries[k].children {
                Some(r) => Some(listing(c.entries, r)),
                None => None,
            }
        } else {
            None
        },
    }
}

/// Whether the cached node `k` is a hit of a search for `needle` among the
/// kinds that `kind` admits: its text holds `needle`, ignoring case.
pub open spec fn is_hit(c: CacheView, kind: FindType, needle: Seq<char>, k: NodeView) -> bool {
    &&& c.entries.contains_key(k)
    &&& kind.admits(k)
    &&& is_infix(lower_of(needle), lower_of(c.entries[k].item.text()))
}

/// `v` lists each hit of the search once, each with its cached item.
pub open spec fn lists_hits(
    c: CacheView,
    kind: FindType,
    needle: Seq<char>,
    v: Seq<(LibraryItemKey, LibraryItem)>,
) -> bool {
    &&& forall|i: int|
        0 <= i < v.len() ==> is_hit(c, kind, needle, #[trigger] v[i].0@) && v[i].1@ == c.entries[v[i].0@].item
    &&& forall|k: NodeView| #[trigger]
        is_hit(c, kind, needle, k) ==> exists|i: int| 0 <= i < v.len() && v[i].0@ == k
    &&& forall|i: int, j: int| 0 <= i < v.len() && 0 <= j < v.len() && v[i].0@ == v[j].0@ ==> i == j
}

/// `ks` names each hit of the search once.
pub open spec fn lists_hit_keys(c: CacheView, kind: FindType, needle: Seq<char>, ks: Seq<NodeView>) -> bool {
    &&& forall|i: int| 0 <= i < ks.len() ==> is_hit(c, kind, needle, #[trigger] ks[i])
    &&& forall|k: NodeView| #[trigger] is_hit(c, kind, needle, k) ==> exists|i: int| 0 <= i < ks.len() && ks[i] == k
    &&& forall|i: int, j: int| 0 <= i < ks.len() && 0 <= j < ks.len() && ks[i] == ks[j] ==> i == j
}

/// Each (node, item) of `l` is of the kind that `parent` lists, with an item
/// of the node's own kind.
pub open spec fn listing_fits(parent: NodeView, l: Seq<(NodeView, ItemView)>) -> bool {
    forall|i: int| 0 <= i < l.len() ==> lists_kind(parent, (#[trigger] l[i]).0) && item_of_kind(l[i].0, l[i].1)
}

/// In a well-formed cache, a children list holds nodes of the kind its node
/// lists, each with an item of its own kind.
pub proof fn lemma_children_fit(c: CacheView, k: NodeView)
    requires
        c.well_formed(),
        children_of(c, k) is Some,
    ensures
        listing_fits(k, children_of(c, k).unwrap()),
{
    let ch = match k {
        NodeView::Root => c.root.unwrap(),
        _ => c.entries[k].children.unwrap(),
    };
    if !(k is Root) {
        assert(entry_fits(c.entries, k, c.entries[k]));
    }
    let l = listing(c.entries, ch);
    assert forall|i: int| 0 <= i < l.len() implies lists_kind(k, (#[trigger] l[i]).0) && item_of_kind(
        l[i].0,
        l[i].1,
    ) by {
        assert(l[i].0 == ch[i]);
        assert(c.entries.contains_key(ch[i]));
        assert(entry_fits(c.entries, ch[i], c.entries[ch[i]]));
    }
}

// Ingesting the root listing.

/// The children that `m` records for node `k`, if any.
pub open spec fn known_children(m: Map<NodeView, EntryView>, k: NodeView) -> Option<Seq<NodeView>> {
    if m.contains_key(k) {
        m[k].children
    } else {
        None
    }
}

/// The entry of an artist listed under the root: no parent, children not
/// fetched yet (they come with the artist's own listing).
pub open spec fn artist_entry(a: subsonic::Artist) -> EntryView {
    EntryView { item: ItemView::Artist(a.name@), parent: None, children: None }
}

/// `acc` followed by each artist of `s` that it does not name yet, in order.
pub open spec fn add_artists(acc: Seq<NodeView>, s: Seq<subsonic::Artist>) -> Seq<NodeView>
    decreases s.len(),
{
    if s.len() == 0 {
        acc
    } else {
        let prev = add_artists(acc, s.drop_last());
        let k = NodeView::Artist(s.last().id@);
        if prev.contains(k) {
            prev
        } else {
            prev.push(k)
        }
    }
}

/// The artists of `s`, each once, in the order of their first listing.
pub open spec fn artist_keys(s: Seq<subsonic::Artist>) -> Seq<NodeView> {
    add_artists(Seq::empty(), s)
}

/// `m` with an entry for each artist of `s`, in order.
pub open spec fn with_artists(m: Map<NodeView, EntryView>, s: Seq<subsonic::Artist>) -> Map<
    NodeView,
    EntryView,
>
    decreases s.len(),
{
    if s.len() == 0 {
        m
    } else {
        with_artists(m, s.drop_last()).insert(NodeView::Artist(s.last().id@), artist_entry(s.last()))
    }
}

/// `m` with an entry for each artist of each index of `s`, in order.
pub open spec fn with_index_artists(m: Map<NodeView, EntryView>, s: Seq<subsonic::Index>) -> Map<
    NodeView,
    EntryView,
>
    decreases s.len(),
{
    if s.len() == 0 {
        m
    } else {
        with_artists(with_index_artists(m, s.drop_last()), s.last().artist@)
    }
}

/// The artists of all indexes of `s`, each once, in the order of their
/// first listing.
pub open spec fn root_keys(s: Seq<subsonic::Index>) -> Seq<NodeView>
    decreases s.len(),
{
    if s.len() == 0 {
        Seq::empty()
    } else {
        add_artists(root_keys(s.drop_last()), s.last().artist@)
    }
}

/// `ix` with each index of `s` named to its artists, in order.
pub open spec fn with_index_names(ix: Map<Seq<char>, Seq<NodeView>>, s: Seq<subsonic::Index>) -> Map<
    Seq<char>,
    Seq<NodeView>,
>
    decreases s.len(),
{
    if s.len() == 0 {
        ix
    } else {
        with_index_names(ix, s.drop_last()).insert(s.last().name@, artist_keys(s.last().artist@))
    }
}

/// The cache after ingesting the root listing `a`.
pub open spec fn after_root(c: CacheView, a: subsonic::Artists) -> CacheView {
    CacheView {
        indexes: with_index_names(c.indexes, a.index@),
        root: Some(root_keys(a.index@)),
        entries: with_index_artists(c.entries, a.index@),
    }
}

// Ingesting an artist's listing.

/// The entry of an album listed by artist `artist_id`: children not fetched
/// yet (they come with the album's own listing).
pub open spec fn album_entry(artist_id: Seq<char>, a: subsonic::Album) -> EntryView {
    EntryView {
        item: ItemView::Album(a.name@),
        parent: Some(NodeView::Artist(artist_id)),
        children: None,
    }
}

pub open spec fn album_keys(s: Seq<subsonic::Album>) -> Seq<NodeView> {
    s.map_values(|a: subsonic::Album| NodeView::Album(a.id@))
}

/// `m` with an entry for each album of `s`, in order.
pub open spec fn with_albums(
    m: Map<NodeView, EntryView>,
    artist_id: Seq<char>,
    s: Seq<subsonic::Album>,
) -> Map<NodeView, EntryView>
    decreases s.len(),
{
    if s.len() == 0 {
        m
    } else {
        with_albums(m, artist_id, s.drop_last()).insert(
            NodeView::Album(s.last().id@),
            album_entry(artist_id, s.last()),
        )
    }
}

/// The cache after ingesting the listing `a` fetched for artist `artist_id`:
/// one entry per album, then the artist's own entry with its albums as children.
pub open spec fn after_artist(c: CacheView, artist_id: Seq<char>, a: subsonic::Artist) -> CacheView {
    CacheView {
        indexes: c.indexes,
        root: c.root,
        entries: with_albums(c.entries, artist_id, a.album@).insert(
            NodeView::Artist(a.id@),
            EntryView {
                item: ItemView::Artist(a.name@),
                parent: None,
                children: Some(album_keys(a.album@)),
            },
        ),
    }
}

// Ingesting an album's listing.

/// The entry of a song listed by album `album_id`.
pub open spec fn song_entry(album_id: Seq<char>, s: subsonic::Child) -> EntryView {
    EntryView {
        item: ItemView::Song(s.title@, s.track, s.duration),
        parent: Some(NodeView::Album(album_id)),
        children: None,
    }
}

pub open spec fn song_keys(s: Seq<subsonic::Child>) -> Seq<NodeView> {
    s.map_values(|c: subsonic::Child| NodeView::Song(c.id@))
}

/// `m` with an entry for each song of `s`, in order.
pub open spec fn with_songs(
    m: Map<NodeView, EntryView>,
    album_id: Seq<char>,
    s: Seq<subsonic::Child>,
) -> Map<NodeView, EntryView>
    decreases s.len(),
{
    if s.len() == 0 {
        m
    } else {
        with_songs(m, album_id, s.drop_last()).insert(
            NodeView::Song(s.last().id@),
            song_entry(album_id, s.last()),
        )
    }
}

/// The parent that the cache recorded for node `k`, if any.
pub open spec fn parent_of(m: Map<NodeView, EntryView>, k: NodeView) -> Option<NodeView> {
    if m.contains_key(k) {
        m[k].parent
    } else {
        None
    }
}

/// The cache after ingesting the listing `a` fetched for album `album_id`:
/// one entry per song, then the album's own entry with its songs as children;
/// the album keeps the parent it was listed under.
pub open spec fn after_album(c: CacheView, album_id: Seq<char>, a: subsonic::Album) -> CacheView {
    let k = NodeView::Album(a.id@);
    let m = with_songs(c.entries, album_id, a.song@);
    CacheView {
        indexes: c.indexes,
        root: c.root,
        entries: m.insert(
            k,
            EntryView {
                item: ItemView::Album(a.name@),
                parent: parent_of(m, k),
                children: Some(song_keys(a.song@)),
            },
        ),
    }
}

proof fn lemma_all_in_insert(m: Map<NodeView, EntryView>, s: Seq<NodeView>, k: NodeView, e: EntryView)
    requires
        all_in(m, s),
    ensures
        all_in(m.insert(k, e), s),
{
    assert forall|j: int| 0 <= j < s.len() implies m.insert(k, e).contains_key(#[trigger] s[j]) by {
        assert(m.contains_key(s[j]));
    }
}

proof fn lemma_linked_insert(c: CacheView, k: NodeView, e: EntryView)
    requires
        c.well_formed(),
        entry_fits(c.entries, k, e),
    ensures
        (CacheView { entries: c.entries.insert(k, e), ..c }).well_formed(),
{
    let m = c.entries.insert(k, e);
    assert forall|x: NodeView| #[trigger] m.contains_key(x) implies entry_fits(m, x, m[x]) by {
        if x == k {
            if let Some(ch) = e.children {
                lemma_all_in_insert(c.entries, ch, k, e);
            }
        } else {
            assert(entry_fits(c.entries, x, c.entries[x]));
            if let Some(ch) = c.entries[x].children {
                lemma_all_in_insert(c.entries, ch, k, e);
            }
        }
    }
    if let Some(r) = c.root {
        lemma_all_in_insert(c.entries, r, k, e);
    }
    assert forall|n: Seq<char>| #[trigger] c.indexes.contains_key(n) implies artist_list(m, c.indexes[n]) by {
        lemma_all_in_insert(c.entries, c.indexes[n], k, e);
    }
}

proof fn lemma_all_in_push(m: Map<NodeView, EntryView>, s: Seq<NodeView>, k: NodeView)
    requires
        all_in(m, s),
        m.contains_key(k),
    ensures
        all_in(m, s.push(k)),
{
    assert forall|j: int| 0 <= j < s.len() + 1 implies m.contains_key(#[trigger] s.push(k)[j]) by {
        if j < s.len() {
            assert(s.push(k)[j] == s[j]);
        }
    }
}

proof fn lemma_linked_index(c: CacheView, n: Seq<char>, s: Seq<NodeView>)
    requires
        c.well_formed(),
        artist_list(c.entries, s),
    ensures
        (CacheView { indexes: c.indexes.insert(n, s), ..c }).well_formed(),
{
    assert forall|x: Seq<char>| #[trigger] c.indexes.insert(n, s).contains_key(x) implies artist_list(
        c.entries,
        c.indexes.insert(n, s)[x],
    ) by {
        if x != n {
            assert(c.indexes.contains_key(x));
        }
    }
}

// Ingests leave the entries of nodes they do not list alone.

proof fn lemma_with_artists_keeps(m: Map<NodeView, EntryView>, s: Seq<subsonic::Artist>, k: NodeView)
    requires
        forall|i: int| 0 <= i < s.len() ==> NodeView::Artist((#[trigger] s[i]).id@) != k,
    ensures
        known_children(with_artists(m, s), k) == known_children(m, k),
    decreases s.len(),
{
    if s.len() > 0 {
        assert(NodeView::Artist(s[s.len() - 1].id@) != k);
        lemma_with_artists_keeps(m, s.drop_last(), k);
    }
}

proof fn lemma_with_index_artists_keeps(m: Map<NodeView, EntryView>, s: Seq<subsonic::Index>, k: NodeView)
    requires
        forall|j: int, i: int|
            0 <= j < s.len() && 0 <= i < s[j].artist@.len() ==> NodeView::Artist(
                (#[trigger] s[j].artist@[i]).id@,
            ) != k,
    ensures
        known_children(with_index_artists(m, s), k) == known_children(m, k),
    decreases s.len(),
{
    if s.len() > 0 {
        let last = s.last().artist@;
        assert forall|i: int| 0 <= i < last.len() implies NodeView::Artist((#[trigger] last[i]).id@) != k by {
            assert(s[s.len() - 1].artist@[i] == last[i]);
        }
        assert forall|j: int, i: int|
            0 <= j < s.drop_last().len() && 0 <= i < s.drop_last()[j].artist@.len() implies NodeView::Artist(
                (#[trigger] s.drop_last()[j].artist@[i]).id@,
            ) != k by {
            assert(s.drop_last()[j] == s[j]);
            assert(s[j].artist@[i] == s.drop_last()[j].artist@[i]);
        }
        lemma_with_index_artists_keeps(m, s.drop_last(), k);
        lemma_with_artists_keeps(with_index_artists(m, s.drop_last()), last, k);
    }
}

proof fn lemma_with_albums_keeps(
    m: Map<NodeView, EntryView>,
    artist_id: Seq<char>,
    s: Seq<subsonic::Album>,
    k: NodeView,
)
    requires
        forall|i: int| 0 <= i < s.len() ==> NodeView::Album((#[trigger] s[i]).id@) != k,
    ensures
        known_children(with_albums(m, artist_id, s), k) == known_children(m, k),
    decreases s.len(),
{
    if s.len() > 0 {
        assert(NodeView::Album(s[s.len() - 1].id@) != k);
        lemma_with_albums_keeps(m, artist_id, s.drop_last(), k);
    }
}

proof fn lemma_with_songs_keeps(m: Map<NodeView, EntryView>, album_id: Seq<char>, s: Seq<subsonic::Child>, k: NodeView)
    requires
        !(k is Song),
    ensures
        known_children(with_songs(m, album_id, s), k) == known_children(m, k),
    decreases s.len(),
{
    if s.len() > 0 {
        lemma_with_songs_keeps(m, album_id, s.drop_last(), k);
    }
}

/// Whether ingesting `resp` as the listing of `fetched_for` writes a fresh
/// entry, with children not fetched, for node `k`: `k` is one of the nodes
/// that the page lists.
pub open spec fn page_lists(fetched_for: NodeView, resp: SubsonicResponse, k: NodeView) -> bool {
    match (fetched_for, resp.data) {
        (NodeView::Root, Some(SubsonicData::Artists(a))) => exists|j: int, i: int|
            0 <= j < a.index@.len() && 0 <= i < a.index@[j].artist@.len() && NodeView::Artist(
                (#[trigger] a.index@[j].artist@[i]).id@,
            ) == k,
        (NodeView::Artist(_), Some(SubsonicData::Artist(a))) => exists|i: int|
            0 <= i < a.album@.len() && NodeView::Album((#[trigger] a.album@[i]).id@) == k,
        (NodeView::Album(_), Some(SubsonicData::Album(a))) => exists|i: int|
            0 <= i < a.song@.len() && NodeView::Song((#[trigger] a.song@[i]).id@) == k,
        _ => false,
    }
}

/// An ingest keeps the children of every node that its page does not list.
pub proof fn lemma_ingest_keeps_unlisted(c: CacheView, k: NodeView, fetched_for: NodeView, resp: SubsonicResponse)
    requires
        !(k is Song),
        !page_lists(fetched_for, resp, k),
    ensures
        known_children(c.entries, k) is Some ==> known_children(
            match (fetched_for, resp.data) {
                (NodeView::Root, Some(SubsonicData::Artists(a))) => after_root(c, a),
                (NodeView::Artist(id), Some(SubsonicData::Artist(a))) => after_artist(c, id, a),
                (NodeView::Album(id), Some(SubsonicData::Album(a))) => after_album(c, id, a),
                _ => c,
            }.entries,
            k,
        ) is Some,
{
    match (fetched_for, resp.data) {
        (NodeView::Root, Some(SubsonicData::Artists(a))) => {
            lemma_with_index_artists_keeps(c.entries, a.index@, k);
        },
        (NodeView::Artist(id), Some(SubsonicData::Artist(a))) => {
            lemma_with_albums_keeps(c.entries, id, a.album@, k);
        },
        (NodeView::Album(id), Some(SubsonicData::Album(a))) => {
            lemma_with_songs_keeps(c.entries, id, a.song@, k);
        },
        _ => {},
    }
}

proof fn lemma_artist_list_push(m: Map<NodeView, EntryView>, s: Seq<NodeView>, k: NodeView)
    requires
        artist_list(m, s),
        m.contains_key(k),
        k is Artist,
        !s.contains(k),
    ensures
        artist_list(m, s.push(k)),
{
    lemma_all_in_push(m, s, k);
    assert forall|j: int| 0 <= j < s.len() + 1 implies lists_kind(NodeView::Root, #[trigger] s.push(k)[j]) by {
        if j < s.len() {
            assert(s.push(k)[j] == s[j]);
        }
    }
    assert forall|x: int, y: int| 0 <= x < s.len() + 1 && 0 <= y < s.len() + 1 && x != y implies s.push(k)[x]
        != s.push(k)[y] by {
        if x < s.len() && y < s.len() {
            assert(s.push(k)[x] == s[x] && s.push(k)[y] == s[y]);
        } else if x < s.len() {
            assert(s.push(k)[x] == s[x]);
            assert(s.contains(s[x]));
        } else if y < s.len() {
            assert(s.push(k)[y] == s[y]);
            assert(s.contains(s[y]));
        }
    }
}

/// Whether `keys` names node `key`.
fn contains_key(keys: &Vec<LibraryItemKey>, key: &LibraryItemKey) -> (r: bool)
    ensures
        r == keys_view(keys@).contains(key@),
{
    let mut i: usize = 0;
    while i < keys.len()
        invariant
            i <= keys.len(),
            forall|j: int| 0 <= j < i ==> keys@[j]@ != key@,
        decreases keys.len() - i,
    {
        if keys[i].same(key) {
            assert(keys_view(keys@)[i as int] == key@);
            return true;
        }
        i = i + 1;
    }
    proof {
        if keys_view(keys@).contains(key@) {
            let j = choose|j: int| 0 <= j < keys_view(keys@).len() && keys_view(keys@)[j] == key@;
            assert(keys@[j]@ == key@);
        }
    }
    false
}

struct CacheEntry {
    item: LibraryItem,
    parent: Option<LibraryItemKey>,
    children: Option<Vec<LibraryItemKey>>,
}

impl View for CacheEntry {
    type V = EntryView;

    closed spec fn view(&self) -> EntryView {
        EntryView {
            item: self.item@,
            parent: match self.parent {
                Some(p) => Some(p@),
                None => None,
            },
            children: match self.children {
                Some(c) => Some(keys_view(c@)),
                None => None,
            },
        }
    }
}

/// The nodes fetched so far, each with its item, its parent and, once its
/// own listing was ingested, its children. Entries are never removed.
pub struct LibraryCache {
    indexes: Vec<(String, Vec<LibraryItemKey>)>,
    root: Option<Vec<LibraryItemKey>>,
    entries: Vec<(LibraryItemKey, CacheEntry)>,
}

impl View for LibraryCache {
    type V = CacheView;

    closed spec fn view(&self) -> CacheView {
        CacheView {
            indexes: to_map(self.index_pairs()),
            root: match self.root {
                Some(r) => Some(keys_view(r@)),
                None => None,
            },
            entries: to_map(self.entry_pairs()),
        }
    }
}

impl LibraryCache {
    closed spec fn entry_pairs(&self) -> Seq<(NodeView, EntryView)> {
        self.entries@.map_values(|p: (LibraryItemKey, CacheEntry)| (p.0@, p.1@))
    }

    closed spec fn index_pairs(&self) -> Seq<(Seq<char>, Seq<NodeView>)> {
        self.indexes@.map_values(|p: (String, Vec<LibraryItemKey>)| (p.0@, keys_view(p.1@)))
    }

    /// The cache's internal consistency: keys are distinct and every node
    /// that is named somewhere has an entry.
    pub closed spec fn wf(&self) -> bool {
        &&& keys_unique(self.entry_pairs())
        &&& keys_unique(self.index_pairs())
        &&& self@.well_formed()
    }

    /// Each entry fits its node; the root and each index list artists, each
    /// once; every node that a list names has an entry.
    pub proof fn lemma_well_formed(&self)
        requires
            self.wf(),
        ensures
            self@.well_formed(),
    {
    }

    /// An empty cache: nothing is known, not even the root's children.
    pub fn new() -> (r: LibraryCache)
        ensures
            r.wf(),
            r@.entries == Map::<NodeView, EntryView>::empty(),
            r@.indexes == Map::<Seq<char>, Seq<NodeView>>::empty(),
            r@.root is None,
    {
        let r = LibraryCache { indexes: Vec::new(), root: None, entries: Vec::new() };
        assert(r@.entries =~= Map::<NodeView, EntryView>::empty());
        assert(r@.indexes =~= Map::<Seq<char>, Seq<NodeView>>::empty());
        r
    }

    /// Where the entry of `key` stands, if it has one.
    fn find(&self, key: &LibraryItemKey) -> (r: Option<usize>)
        requires
            self.wf(),
        ensures
            match r {
                Some(i) => i < self.entries@.len() && self.entries@[i as int].0@ == key@
                    && self@.entries.contains_key(key@) && self@.entries[key@]
                    == self.entries@[i as int].1@,
                None => !self@.entries.contains_key(key@),
            },
    {
        let mut i: usize = 0;
        while i < self.entries.len()
            invariant
                self.wf(),
                i <= self.entries@.len(),
                forall|j: int| 0 <= j < i ==> self.entries@[j].0@ != key@,
            decreases self.entries.len() - i,
        {
            if self.entries[i].0.same(key) {
                proof {
                    lemma_to_map_at(self.entry_pairs(), i as int);
                }
                return Some(i);
            }
            i = i + 1;
        }
        proof {
            if has_key(self.entry_pairs(), key@) {
                let j = choose|j: int|
                    0 <= j < self.entry_pairs().len() && self.entry_pairs()[j].0 == key@;
                assert(self.entries@[j].0@ == key@);
            }
        }
        None
    }
    /// Records `entry` for `key`, replacing what was there.
    fn put(&mut self, key: LibraryItemKey, entry: CacheEntry)
        requires
            old(self).wf(),
            entry_fits(old(self)@.entries, key@, entry@),
        ensures
            final(self).wf(),
            final(self)@ == (CacheView {
                entries: old(self)@.entries.insert(key@, entry@),
                ..old(self)@
            }),
    {
        let ghost pairs = self.entry_pairs();
        let ghost kv = key@;
        let ghost ev = entry@;
        proof {
            lemma_linked_insert(self@, kv, ev);
        }
        match self.find(&key) {
            Some(i) => {
                proof {
                    lemma_to_map_update(pairs, i as int, ev);
                }
                self.entries.set(i, (key, entry));
                assert(self.entry_pairs() =~= pairs.update(i as int, (pairs[i as int].0, ev)));
            },
            None => {
                proof {
                    lemma_to_map_push(pairs, kv, ev);
                }
                self.entries.push((key, entry));
                assert(self.entry_pairs() =~= pairs.push((kv, ev)));
            },
        }
    }

    /// The children named by `keys`, each with a copy of its item.
    fn listing_of(&self, keys: &Vec<LibraryItemKey>) -> (r: Vec<(LibraryItemKey, LibraryItem)>)
        requires
            self.wf(),
            all_in(self@.entries, keys_view(keys@)),
        ensures
            pairs_view(r@) == listing(self@.entries, keys_view(keys@)),
    {
        let ghost want = listing(self@.entries, keys_view(keys@));
        let mut r: Vec<(LibraryItemKey, LibraryItem)> = Vec::new();
        let mut i: usize = 0;
        while i < keys.len()
            invariant
                self.wf(),
                all_in(self@.entries, keys_view(keys@)),
                want == listing(self@.entries, keys_view(keys@)),
                i <= keys.len(),
                pairs_view(r@) == want.take(i as int),
            decreases keys.len() - i,
        {
            let k = &keys[i];
            assert(keys_view(keys@)[i as int] == k@);
            assert(self@.entries.contains_key(k@));
            let ghost r0 = r@;
            match self.find(k) {
                Some(j) => {
                    let item = self.entries[j].1.item.copied();
                    assert(item@ == self@.entries[k@].item);
                    r.push((k.copied(), item));
                    assert(pairs_view(r@) =~= pairs_view(r0).push((k@, self@.entries[k@].item)));
                },
                None => {},
            }
            assert(want[i as int] == (k@, self@.entries[k@].item));
            assert(want.take(i + 1) =~= want.take(i as int).push(want[i as int]));
            assert(pairs_view(r@) =~= want.take(i + 1));
            i = i + 1;
        }
        assert(want.take(i as int) =~= want);
        r
    }

    /// The children of `key` as far as the cache knows them: `None` until the
    /// node's own listing was ingested (and always for a song), else its
    /// children in server order, each with its item; an empty listing gives
    /// `Some` of an empty list.
    pub fn get_children(&self, key: &LibraryItemKey) -> (r: Option<Vec<(LibraryItemKey, LibraryItem)>>)
        requires
            self.wf(),
        ensures
            match r {
                Some(v) => children_of(self@, key@) == Some(pairs_view(v@)) && listing_fits(
                    key@,
                    pairs_view(v@),
                ),
                None => children_of(self@, key@) is None,
            },
    {
        proof {
            if children_of(self@, key@) is Some {
                lemma_children_fit(self@, key@);
            }
        }
        match key {
            LibraryItemKey::Root => match &self.root {
                Some(c) => Some(self.listing_of(c)),
                None => None,
            },
            LibraryItemKey::Song(_) => None,
            _ => match self.find(key) {
                Some(i) => match &self.entries[i].1.children {
                    Some(c) => Some(self.listing_of(c)),
                    None => None,
                },
                None => None,
            },
        }
    }

    /// Ingests the listing fetched for artist `artist_id`: an entry for each
    /// album (listed under `artist_id`, children not fetched yet), then the artist's
    /// entry with its albums as children, in server order. A response that
    /// holds no artist listing changes nothing.
    pub fn update_artist(&mut self, resp: SubsonicResponse, artist_id: &Id)
        requires
            old(self).wf(),
        ensures
            final(self).wf(),
            match resp.data {
                Some(SubsonicData::Artist(a)) => final(self)@ == after_artist(old(self)@, artist_id@, a),
                _ => final(self)@ == old(self)@,
            },
    {
        match resp.data {
            Some(SubsonicData::Artist(artist)) => {
                let ghost albums = artist.album@;
                let mut album_keys_v: Vec<LibraryItemKey> = Vec::new();
                let mut i: usize = 0;
                while i < artist.album.len()
                    invariant
                        self.wf(),
                        albums == artist.album@,
                        i <= albums.len(),
                        self@.entries == with_albums(old(self)@.entries, artist_id@, albums.take(i as int)),
                        self@.root == old(self)@.root,
                        self@.indexes == old(self)@.indexes,
                        keys_view(album_keys_v@) == album_keys(albums.take(i as int)),
                        all_in(self@.entries, keys_view(album_keys_v@)),
                    decreases albums.len() - i,
                {
                    let album = &artist.album[i];
                    let key = LibraryItemKey::Album(album.id.clone());
                    let entry = CacheEntry {
                        item: LibraryItem::Album(Album { name: SearchString::from(album.name.as_str()) }),
                        parent: Some(LibraryItemKey::Artist(artist_id.clone())),
                        children: None,
                    };
                    let ghost before = self@.entries;
                    let ghost old_keys = album_keys_v@;
                    self.put(key, entry);
                    album_keys_v.push(LibraryItemKey::Album(album.id.clone()));
                    proof {
                        assert(albums.take(i + 1).drop_last() =~= albums.take(i as int));
                        assert(albums.take(i + 1).last() == *album);
                        assert(album_keys(albums.take(i + 1)) =~= album_keys(albums.take(i as int)).push(
                            NodeView::Album(album.id@),
                        ));
                        assert(keys_view(album_keys_v@) =~= keys_view(old_keys).push(NodeView::Album(album.id@)));
                        assert forall|j: int| 0 <= j < album_keys_v@.len() implies self@.entries.contains_key(
                            #[trigger] keys_view(album_keys_v@)[j],
                        ) by {
                            if j < i {
                                assert(keys_view(album_keys_v@)[j] == keys_view(old_keys)[j]);
                                assert(before.contains_key(keys_view(old_keys)[j]));
                            }
                        }
                    }
                    i = i + 1;
                }
                assert(albums.take(i as int) =~= albums);
                assert(all_listed_kind(NodeView::Artist(artist.id@), keys_view(album_keys_v@)));
                let entry = CacheEntry {
                    item: LibraryItem::Artist(Artist { name: SearchString::from(artist.name.as_str()) }),
                    parent: None,
                    children: Some(album_keys_v),
                };
                self.put(LibraryItemKey::Artist(artist.id.clone()), entry);
            },
            _ => {},
        }
    }
    /// Names `keys` as the artists of index `name`, replacing what was there.
    fn put_index(&mut self, name: String, keys: Vec<LibraryItemKey>)
        requires
            old(self).wf(),
            artist_list(old(self)@.entries, keys_view(keys@)),
        ensures
            final(self).wf(),
            final(self)@ == (CacheView {
                indexes: old(self)@.indexes.insert(name@, keys_view(keys@)),
                ..old(self)@
            }),
    {
        let ghost pairs = self.index_pairs();
        let ghost nv = name@;
        let ghost kv = keys_view(keys@);
        let ghost c = self@;
        let mut i: usize = 0;
        while i < self.indexes.len()
            invariant
                self.wf(),
                self@ == c,
                c == old(self)@,
                self.index_pairs() == pairs,
                nv == name@,
                kv == keys_view(keys@),
                artist_list(c.entries, kv),
                i <= self.indexes@.len(),
                forall|j: int| 0 <= j < i ==> self.indexes@[j].0@ != nv,
            decreases self.indexes.len() - i,
        {
            if self.indexes[i].0.eq(&name) {
                proof {
                    lemma_to_map_update(pairs, i as int, kv);
                    lemma_linked_index(c, nv, kv);
                }
                self.indexes.set(i, (name, keys));
                assert(self.index_pairs() =~= pairs.update(i as int, (pairs[i as int].0, kv)));
                return;
            }
            i = i + 1;
        }
        proof {
            if has_key(pairs, nv) {
                let j = choose|j: int| 0 <= j < pairs.len() && pairs[j].0 == nv;
                assert(self.indexes@[j].0@ == nv);
            }
            lemma_to_map_push(pairs, nv, kv);
            lemma_linked_index(c, nv, kv);
        }
        self.indexes.push((name, keys));
        assert(self.index_pairs() =~= pairs.push((nv, kv)));
    }

    /// Ingests the root listing: for each index in server order, an entry for
    /// each of its artists (no parent, children not fetched yet) and the index
    /// named to its artists, each once; the root's children become the
    /// artists of all indexes, each once, in the order of their first listing.
    /// A response that holds no artist listing changes nothing.
    pub fn update_root(&mut self, resp: SubsonicResponse)
        requires
            old(self).wf(),
        ensures
            final(self).wf(),
            match resp.data {
                Some(SubsonicData::Artists(a)) => final(self)@ == after_root(old(self)@, a),
                _ => final(self)@ == old(self)@,
            },
    {
        match resp.data {
            Some(SubsonicData::Artists(artists)) => {
                let ghost idx = artists.index@;
                let mut all_keys: Vec<LibraryItemKey> = Vec::new();
                let mut i: usize = 0;
                while i < artists.index.len()
                    invariant
                        self.wf(),
                        idx == artists.index@,
                        i <= idx.len(),
                        self@.entries == with_index_artists(old(self)@.entries, idx.take(i as int)),
                        self@.indexes == with_index_names(old(self)@.indexes, idx.take(i as int)),
                        self@.root == old(self)@.root,
                        keys_view(all_keys@) == root_keys(idx.take(i as int)),
                        artist_list(self@.entries, keys_view(all_keys@)),
                    decreases idx.len() - i,
                {
                    let index = &artists.index[i];
                    let ghost arts = index.artist@;
                    let ghost start = self@.entries;
                    let ghost start_keys = keys_view(all_keys@);
                    let mut index_keys: Vec<LibraryItemKey> = Vec::new();
                    let mut j: usize = 0;
                    while j < index.artist.len()
                        invariant
                            self.wf(),
                            arts == index.artist@,
                            j <= arts.len(),
                            self@.entries == with_artists(start, arts.take(j as int)),
                            self@.indexes == with_index_names(old(self)@.indexes, idx.take(i as int)),
                            self@.root == old(self)@.root,
                            keys_view(index_keys@) == add_artists(Seq::empty(), arts.take(j as int)),
                            keys_view(all_keys@) == add_artists(start_keys, arts.take(j as int)),
                            artist_list(self@.entries, keys_view(index_keys@)),
                            artist_list(self@.entries, keys_view(all_keys@)),
                        decreases arts.len() - j,
                    {
                        let a = &index.artist[j];
                        let key = LibraryItemKey::Artist(a.id.clone());
                        let entry = CacheEntry {
                            item: LibraryItem::Artist(Artist { name: SearchString::from(a.name.as_str()) }),
                            parent: None,
                            children: None,
                        };
                        let ghost before = self@.entries;
                        let ghost ik = keys_view(index_keys@);
                        let ghost ak = keys_view(all_keys@);
                        let ghost kv = NodeView::Artist(a.id@);
                        let in_index = contains_key(&index_keys, &key);
                        let in_all = contains_key(&all_keys, &key);
                        self.put(key, entry);
                        proof {
                            lemma_all_in_insert(before, ik, kv, artist_entry(*a));
                            lemma_all_in_insert(before, ak, kv, artist_entry(*a));
                            assert(arts.take(j + 1).drop_last() =~= arts.take(j as int));
                            assert(arts.take(j + 1).last() == *a);
                        }
                        if !in_index {
                            index_keys.push(LibraryItemKey::Artist(a.id.clone()));
                            proof {
                                assert(keys_view(index_keys@) =~= ik.push(kv));
                                lemma_artist_list_push(self@.entries, ik, kv);
                            }
                        }
                        if !in_all {
                            all_keys.push(LibraryItemKey::Artist(a.id.clone()));
                            proof {
                                assert(keys_view(all_keys@) =~= ak.push(kv));
                                lemma_artist_list_push(self@.entries, ak, kv);
                            }
                        }
                        j = j + 1;
                    }
                    proof {
                        assert(arts.take(j as int) =~= arts);
                        assert(idx.take(i + 1).drop_last() =~= idx.take(i as int));
                        assert(idx.take(i + 1).last() == *index);
                    }
                    self.put_index(index.name.clone(), index_keys);
                    i = i + 1;
                }
                assert(idx.take(i as int) =~= idx);
                self.root = Some(all_keys);
            },
            _ => {},
        }
    }

    /// Ingests the listing fetched for album `album_id`: an entry for each
    /// song (listed under `album_id`), then the album's entry with its songs
    /// as children, in server order; the album keeps the parent it was listed
    /// under. A response that holds no album listing changes nothing.
    pub fn update_album(&mut self, resp: SubsonicResponse, album_id: &Id)
        requires
            old(self).wf(),
        ensures
            final(self).wf(),
            match resp.data {
                Some(SubsonicData::Album(a)) => final(self)@ == after_album(old(self)@, album_id@, a),
                _ => final(self)@ == old(self)@,
            },
    {
        match resp.data {
            Some(SubsonicData::Album(album)) => {
                let ghost songs = album.song@;
                let mut song_keys_v: Vec<LibraryItemKey> = Vec::new();
                let mut i: usize = 0;
                while i < album.song.len()
                    invariant
                        self.wf(),
                        songs == album.song@,
                        i <= songs.len(),
                        self@.entries == with_songs(old(self)@.entries, album_id@, songs.take(i as int)),
                        self@.root == old(self)@.root,
                        self@.indexes == old(self)@.indexes,
                        keys_view(song_keys_v@) == song_keys(songs.take(i as int)),
                        all_in(self@.entries, keys_view(song_keys_v@)),
                    decreases songs.len() - i,
                {
                    let song = &album.song[i];
                    let entry = CacheEntry {
                        item: LibraryItem::Song(
                            Song {
                                title: SearchString::from(song.title.as_str()),
                                track_number: song.track,
                                duration: song.duration,
                            },
                        ),
                        parent: Some(LibraryItemKey::Album(album_id.clone())),
                        children: None,
                    };
                    let ghost before = self@.entries;
                    let ghost sk = keys_view(song_keys_v@);
                    let ghost kv = NodeView::Song(song.id@);
                    self.put(LibraryItemKey::Song(song.id.clone()), entry);
                    song_keys_v.push(LibraryItemKey::Song(song.id.clone()));
                    proof {
                        assert(songs.take(i + 1).drop_last() =~= songs.take(i as int));
                        assert(songs.take(i + 1).last() == *song);
                        assert(song_keys(songs.take(i + 1)) =~= song_keys(songs.take(i as int)).push(kv));
                        assert(keys_view(song_keys_v@) =~= sk.push(kv));
                        lemma_all_in_insert(before, sk, kv, song_entry(album_id@, *song));
                        lemma_all_in_push(self@.entries, sk, kv);
                    }
                    i = i + 1;
                }
                assert(songs.take(i as int) =~= songs);
                assert(all_listed_kind(NodeView::Album(album.id@), keys_view(song_keys_v@)));
                let key = LibraryItemKey::Album(album.id.clone());
                let parent = match self.find(&key) {
                    Some(j) => match &self.entries[j].1.parent {
                        Some(p) => Some(p.copied()),
                        None => None,
                    },
                    None => None,
                };
                let entry = CacheEntry {
                    item: LibraryItem::Album(Album { name: SearchString::from(album.name.as_str()) }),
                    parent,
                    children: Some(song_keys_v),
                };
                self.put(key, entry);
            },
            _ => {},
        }
    }
    /// The item of `key`, if the cache has an entry for it.
    pub fn get_item(&self, key: &LibraryItemKey) -> (r: Option<LibraryItem>)
        requires
            self.wf(),
        ensures
            match r {
                Some(it) => self@.entries.contains_key(key@) && it@ == self@.entries[key@].item,
                None => !self@.entries.contains_key(key@),
            },
    {
        match self.find(key) {
            Some(i) => Some(self.entries[i].1.item.copied()),
            None => None,
        }
    }

    /// Every cached node that is a hit of a search for `needle` among the
    /// kinds that `kind` admits, each once and with its item. Only what is
    /// cached is searched; nothing is fetched.
    pub fn find_entries(&self, kind: FindType, needle: &SearchString) -> (r: Vec<(LibraryItemKey, LibraryItem)>)
        requires
            self.wf(),
        ensures
            lists_hits(self@, kind, needle@, r@),
    {
        let ghost pairs = self.entry_pairs();
        let mut r: Vec<(LibraryItemKey, LibraryItem)> = Vec::new();
        let mut i: usize = 0;
        while i < self.entries.len()
            invariant
                self.wf(),
                pairs == self.entry_pairs(),
                i <= self.entries@.len(),
                forall|x: int|
                    0 <= x < r@.len() ==> is_hit(self@, kind, needle@, #[trigger] r@[x].0@) && r@[x].1@
                        == self@.entries[r@[x].0@].item && exists|j: int| 0 <= j < i && pairs[j].0 == r@[x].0@,
                forall|j: int|
                    0 <= j < i && is_hit(self@, kind, needle@, #[trigger] pairs[j].0) ==> exists|x: int|
                        0 <= x < r@.len() && r@[x].0@ == pairs[j].0,
                forall|x: int, y: int| 0 <= x < r@.len() && 0 <= y < r@.len() && r@[x].0@ == r@[y].0@ ==> x == y,
            decreases self.entries.len() - i,
        {
            let key = &self.entries[i].0;
            let item = &self.entries[i].1.item;
            proof {
                lemma_to_map_at(pairs, i as int);
                assert(pairs[i as int].0 == key@);
                assert(self@.entries[key@].item == item@);
            }
            let admitted = match (kind, key) {
                (FindType::Any, LibraryItemKey::Root) => false,
                (FindType::Any, _) => true,
                (FindType::Artist, LibraryItemKey::Artist(_)) => true,
                (FindType::Album, LibraryItemKey::Album(_)) => true,
                (FindType::Song, LibraryItemKey::Song(_)) => true,
                _ => false,
            };
            let ghost r0 = r@;
            if admitted && item.text().contains(needle) {
                r.push((key.copied(), item.copied()));
                proof {
                    assert forall|x: int| 0 <= x < r0.len() implies r0[x].0@ != key@ by {
                        let j = choose|j: int| 0 <= j < i && pairs[j].0 == r0[x].0@;
                        assert(j != i);
                    }
                    assert forall|x: int|
                        0 <= x < r@.len() implies is_hit(self@, kind, needle@, #[trigger] r@[x].0@) && r@[x].1@
                            == self@.entries[r@[x].0@].item && exists|j: int| 0 <= j < i + 1 && pairs[j].0
                            == r@[x].0@ by {
                        if x < r0.len() {
                            assert(r@[x] == r0[x]);
                            let j = choose|j: int| 0 <= j < i && pairs[j].0 == r0[x].0@;
                            assert(pairs[j].0 == r@[x].0@);
                        } else {
                            assert(pairs[i as int].0 == r@[x].0@);
                        }
                    }
                    assert forall|j: int|
                        0 <= j < i + 1 && is_hit(self@, kind, needle@, #[trigger] pairs[j].0) implies exists|x: int|
                            0 <= x < r@.len() && r@[x].0@ == pairs[j].0 by {
                        if j < i {
                            let x = choose|x: int| 0 <= x < r0.len() && r0[x].0@ == pairs[j].0;
                            assert(r@[x] == r0[x]);
                        } else {
                            assert(r@[r0.len() as int].0@ == pairs[j].0);
                        }
                    }
                }
            } else {
                proof {
                    assert(!is_hit(self@, kind, needle@, pairs[i as int].0));
                    assert forall|x: int|
                        0 <= x < r@.len() implies exists|j: int| 0 <= j < i + 1 && pairs[j].0 == #[trigger] r@[x].0@ by {
                        let j = choose|j: int| 0 <= j < i && pairs[j].0 == r@[x].0@;
                    }
                }
            }
            i = i + 1;
        }
        proof {
            assert forall|k: NodeView| #[trigger] is_hit(self@, kind, needle@, k) implies exists|x: int|
                0 <= x < r@.len() && r@[x].0@ == k by {
                let j = choose|j: int| 0 <= j < pairs.len() && pairs[j].0 == k;
                assert(is_hit(self@, kind, needle@, pairs[j].0));
            }
        }
        r
    }
}

} // verus!

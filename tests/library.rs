use navicon::library::request::{FindType, LibraryRequest};
use navicon::library::{
    Fetch, Library, LibraryError, LibraryItem, LibraryItemKey, Resolution, SearchString, Step,
};
use navicon::subsonic::{self, SubsonicData, SubsonicResponse};
use navicon::ui::event::UiEvent;

fn response(data: SubsonicData) -> SubsonicResponse {
    SubsonicResponse {
        status: "ok".to_string(),
        version: "1.16.1".to_string(),
        data: Some(data),
    }
}

fn song(id: &str, title: &str, track: Option<usize>) -> subsonic::Child {
    subsonic::Child {
        id: id.to_string(),
        parent: None,
        is_dir: false,
        title: title.to_string(),
        album: None,
        artist: None,
        track,
        year: None,
        genre: None,
        content_type: None,
        duration: Some(200),
    }
}

fn album(id: &str, name: &str, songs: Vec<subsonic::Child>) -> subsonic::Album {
    subsonic::Album {
        id: id.to_string(),
        name: name.to_string(),
        artist: None,
        artist_id: None,
        song_count: songs.len(),
        duration: 0,
        created: 0,
        year: None,
        genre: None,
        song: songs,
    }
}

fn artist(id: &str, name: &str, albums: Vec<subsonic::Album>) -> subsonic::Artist {
    subsonic::Artist {
        id: id.to_string(),
        name: name.to_string(),
        album_count: albums.len(),
        album: albums,
    }
}

fn root_page(indexes: Vec<(&str, Vec<subsonic::Artist>)>) -> SubsonicResponse {
    response(SubsonicData::Artists(subsonic::Artists {
        index: indexes
            .into_iter()
            .map(|(name, artist)| subsonic::Index {
                artist,
                name: name.to_string(),
            })
            .collect(),
        ignored_articles: String::new(),
    }))
}

/// A server that answers from fixed pages and counts the fetches it sees.
struct FakeServer {
    root: SubsonicResponse,
    artists: Vec<subsonic::Artist>,
    albums: Vec<subsonic::Album>,
    fetches: Vec<Fetch>,
}

impl FakeServer {
    fn new() -> FakeServer {
        FakeServer {
            root: root_page(vec![
                ("A", vec![artist("A1", "Aurora", vec![]), artist("A2", "Abba", vec![])]),
                ("B", vec![artist("B1", "Bjork", vec![])]),
            ]),
            artists: vec![
                artist(
                    "A1",
                    "Aurora",
                    vec![album("AL1", "First Light", vec![]), album("AL2", "Dusk", vec![])],
                ),
                artist("A2", "Abba", vec![]),
            ],
            albums: vec![album(
                "AL1",
                "First Light",
                vec![
                    song("S3", "Third", Some(3)),
                    song("S1", "First", Some(1)),
                    song("S2", "Second", Some(2)),
                ],
            )],
            fetches: vec![],
        }
    }

    fn fetch(&mut self, f: &Fetch) -> Result<SubsonicResponse, LibraryError> {
        self.fetches.push(f.clone());
        match f {
            Fetch::Artists => Ok(self.root.clone()),
            Fetch::Artist(id) => self
                .artists
                .iter()
                .find(|a| &a.id == id)
                .map(|a| response(SubsonicData::Artist(a.clone())))
                .ok_or(LibraryError::Transport("no such artist".to_string())),
            Fetch::Album(id) => self
                .albums
                .iter()
                .find(|a| &a.id == id)
                .map(|a| response(SubsonicData::Album(a.clone())))
                .ok_or(LibraryError::Transport("no such album".to_string())),
        }
    }

    fn count(&self, f: &Fetch) -> usize {
        self.fetches.iter().filter(|g| *g == f).count()
    }
}

fn resolve_children(
    lib: &mut Library,
    server: &mut FakeServer,
    key: &LibraryItemKey,
) -> Result<Vec<(LibraryItemKey, LibraryItem)>, LibraryError> {
    match lib.resolve(key) {
        Resolution::Ready(v) => Ok(v),
        Resolution::NeedsFetch(f) => {
            let fetched = server.fetch(&f);
            lib.complete(key, fetched)
        }
    }
}

fn texts(v: &[(LibraryItemKey, LibraryItem)]) -> Vec<String> {
    v.iter().map(|(_, item)| item.text().as_str().to_string()).collect()
}

fn keys(v: &[(LibraryItemKey, LibraryItem)]) -> Vec<LibraryItemKey> {
    v.iter().map(|(k, _)| k.clone()).collect()
}

fn artist_key(id: &str) -> LibraryItemKey {
    LibraryItemKey::Artist(id.to_string())
}

fn album_key(id: &str) -> LibraryItemKey {
    LibraryItemKey::Album(id.to_string())
}

fn song_key(id: &str) -> LibraryItemKey {
    LibraryItemKey::Song(id.to_string())
}

#[test]
fn idempotent_cache_hit() {
    let mut lib = Library::new();
    let mut server = FakeServer::new();
    let first = resolve_children(&mut lib, &mut server, &LibraryItemKey::Root).unwrap();
    let second = resolve_children(&mut lib, &mut server, &LibraryItemKey::Root).unwrap();
    let third = resolve_children(&mut lib, &mut server, &LibraryItemKey::Root).unwrap();
    assert_eq!(server.count(&Fetch::Artists), 1);
    assert_eq!(server.fetches.len(), 1);
    assert_eq!(keys(&first), vec![artist_key("A1"), artist_key("A2"), artist_key("B1")]);
    assert_eq!(texts(&first), vec!["Aurora", "Abba", "Bjork"]);
    assert_eq!(keys(&first), keys(&second));
    assert_eq!(texts(&first), texts(&second));
    assert_eq!(keys(&first), keys(&third));
    assert_eq!(texts(&first), texts(&third));
}

#[test]
fn at_most_one_fetch_per_node() {
    let mut lib = Library::new();
    let mut server = FakeServer::new();
    let mut events = vec![];
    for _ in 0..2 {
        match lib.handle(LibraryRequest::GetChildren(artist_key("A1"))) {
            Step::Reply(ev) => events.push(ev),
            Step::Fetch(key, f) => {
                let fetched = server.fetch(&f);
                events.push(lib.fetched(key, fetched));
            }
            Step::Stop => panic!("a children request does not stop the service"),
        }
    }
    assert_eq!(server.count(&Fetch::Artist("A1".to_string())), 1);
    assert_eq!(server.fetches.len(), 1);
    assert_eq!(events.len(), 2);
    for ev in &events {
        match ev {
            UiEvent::LibraryGetChildrenComplete(key, Ok(v)) => {
                assert_eq!(key, &artist_key("A1"));
                assert_eq!(keys(v), vec![album_key("AL1"), album_key("AL2")]);
            }
            other => panic!("unexpected event {:?}", other),
        }
    }
}

#[test]
fn root_listing_writes_artists_without_albums() {
    let mut lib = Library::new();
    let mut server = FakeServer::new();
    let albums = resolve_children(&mut lib, &mut server, &artist_key("A1")).unwrap();
    assert_eq!(albums.len(), 2);
    resolve_children(&mut lib, &mut server, &LibraryItemKey::Root).unwrap();
    assert!(lib.cached_children(&artist_key("A1")).is_none());
    assert!(matches!(lib.resolve(&artist_key("A1")), Resolution::NeedsFetch(Fetch::Artist(id)) if id == "A1"));
}

#[test]
fn root_lists_each_artist_once() {
    let mut lib = Library::new();
    let page = root_page(vec![
        ("A", vec![artist("A1", "Aurora", vec![]), artist("A2", "Abba", vec![]), artist("A1", "Aurora", vec![])]),
        ("B", vec![artist("B1", "Bjork", vec![]), artist("A2", "Abba", vec![])]),
    ]);
    let artists = lib.complete(&LibraryItemKey::Root, Ok(page)).unwrap();
    assert_eq!(keys(&artists), vec![artist_key("A1"), artist_key("A2"), artist_key("B1")]);
    assert_eq!(lib.find_entry("").len(), 3);
}

#[test]
fn partition_routing() {
    let mut lib = Library::new();
    let mut server = FakeServer::new();
    server.albums = vec![album(
        "AL1",
        "First Light",
        vec![song("S1", "Dawn", Some(1)), song("S2", "Noon", Some(2))],
    )];
    server.artists = vec![artist("A1", "Aurora", vec![album("AL1", "First Light", vec![])])];
    resolve_children(&mut lib, &mut server, &artist_key("A1")).unwrap();
    let songs = resolve_children(&mut lib, &mut server, &album_key("AL1")).unwrap();
    assert_eq!(keys(&songs), vec![song_key("S1"), song_key("S2")]);
    assert_eq!(texts(&songs), vec!["Dawn", "Noon"]);
    assert_eq!(server.count(&Fetch::Album("AL1".to_string())), 1);
}

#[test]
fn ordering_preserved() {
    let mut lib = Library::new();
    let mut server = FakeServer::new();
    let songs = resolve_children(&mut lib, &mut server, &album_key("AL1")).unwrap();
    assert_eq!(keys(&songs), vec![song_key("S3"), song_key("S1"), song_key("S2")]);
    assert_eq!(texts(&songs), vec!["Third", "First", "Second"]);
    match &songs[0].1 {
        LibraryItem::Song(s) => {
            assert_eq!(s.track_number, Some(3));
            assert_eq!(s.duration, Some(200));
        }
        other => panic!("not a song: {:?}", other),
    }
}

#[test]
fn case_insensitive_substring_match() {
    let mut lib = Library::new();
    let mut server = FakeServer::new();
    resolve_children(&mut lib, &mut server, &artist_key("A1")).unwrap();
    let first = lib.find_entries(FindType::Any, "first");
    assert_eq!(keys(&first), vec![album_key("AL1")]);
    assert_eq!(texts(&first), vec!["First Light"]);
    let light = lib.find_entries(FindType::Any, "LIGHT");
    assert_eq!(keys(&light), vec![album_key("AL1")]);
    assert!(lib.find_entries(FindType::Any, "second").is_empty());
    assert!(lib.find_entries(FindType::Artist, "first").is_empty());
    assert_eq!(lib.find_album("fIrSt"), vec![album_key("AL1")]);
}

#[test]
fn empty_children_signaling() {
    let mut lib = Library::new();
    let mut server = FakeServer::new();
    assert!(lib.cached_children(&artist_key("A2")).is_none());
    let first = resolve_children(&mut lib, &mut server, &artist_key("A2")).unwrap();
    assert!(first.is_empty());
    assert!(matches!(lib.cached_children(&artist_key("A2")), Some(v) if v.is_empty()));
    assert!(matches!(lib.resolve(&artist_key("A2")), Resolution::Ready(v) if v.is_empty()));
    resolve_children(&mut lib, &mut server, &LibraryItemKey::Root).unwrap();
    assert!(lib.cached_children(&artist_key("B1")).is_none());
    assert_eq!(server.count(&Fetch::Artist("A2".to_string())), 1);
}

#[test]
fn shutdown_drains_in_flight_work() {
    let mut lib = Library::new();
    let mut server = FakeServer::new();
    let requests = vec![
        LibraryRequest::GetChildren(LibraryItemKey::Root),
        LibraryRequest::Shutdown,
        LibraryRequest::GetChildren(artist_key("A1")),
    ];
    let mut events = vec![];
    let mut stopped_after = None;
    for (i, req) in requests.into_iter().enumerate() {
        match lib.handle(req) {
            Step::Reply(ev) => events.push(ev),
            Step::Fetch(key, f) => {
                let fetched = server.fetch(&f);
                events.push(lib.fetched(key, fetched));
            }
            Step::Stop => {
                stopped_after = Some(i);
                break;
            }
        }
    }
    assert_eq!(stopped_after, Some(1));
    assert_eq!(events.len(), 1);
    assert!(matches!(
        &events[0],
        UiEvent::LibraryGetChildrenComplete(LibraryItemKey::Root, Ok(v)) if v.len() == 3
    ));
    assert_eq!(server.fetches, vec![Fetch::Artists]);
}

#[test]
fn find_request_answers_from_cache_only() {
    let mut lib = Library::new();
    let mut server = FakeServer::new();
    resolve_children(&mut lib, &mut server, &LibraryItemKey::Root).unwrap();
    match lib.handle(LibraryRequest::FindEntries(7, FindType::Artist, "AB".to_string())) {
        Step::Reply(UiEvent::LibraryFindEntriesComplete(id, v)) => {
            assert_eq!(id, 7);
            assert_eq!(keys(&v), vec![artist_key("A2")]);
        }
        other => panic!("unexpected step {:?}", other),
    }
    assert_eq!(server.fetches.len(), 1);
    assert!(lib.find_song("first").is_empty());
    assert_eq!(lib.find_artist("r"), vec![artist_key("A1"), artist_key("B1")]);
}

#[test]
fn find_entry_covers_every_kind() {
    let mut lib = Library::new();
    let mut server = FakeServer::new();
    resolve_children(&mut lib, &mut server, &LibraryItemKey::Root).unwrap();
    resolve_children(&mut lib, &mut server, &artist_key("A1")).unwrap();
    resolve_children(&mut lib, &mut server, &album_key("AL1")).unwrap();
    let mut hits = lib.find_entry("IR");
    hits.sort_by_key(|k| format!("{:?}", k));
    assert_eq!(hits, vec![album_key("AL1"), song_key("S1"), song_key("S3")]);
    assert_eq!(lib.find_song("ir"), vec![song_key("S3"), song_key("S1")]);
    assert_eq!(lib.find_entry("").len(), 8);
}

#[test]
fn song_resolves_to_nothing_without_fetch() {
    let mut lib = Library::new();
    let mut server = FakeServer::new();
    let v = resolve_children(&mut lib, &mut server, &song_key("S1")).unwrap();
    assert!(v.is_empty());
    assert!(server.fetches.is_empty());
    assert!(lib.cached_children(&song_key("S1")).is_none());
}

#[test]
fn failed_fetch_is_handed_back_and_changes_nothing() {
    let mut lib = Library::new();
    let r = lib.complete(
        &LibraryItemKey::Root,
        Err(LibraryError::Transport("connection refused".to_string())),
    );
    assert!(matches!(r, Err(LibraryError::Transport(m)) if m == "connection refused"));
    assert!(lib.cached_children(&LibraryItemKey::Root).is_none());
    assert!(matches!(lib.resolve(&LibraryItemKey::Root), Resolution::NeedsFetch(Fetch::Artists)));
}

#[test]
fn response_without_listing_gives_empty_children_error() {
    let mut lib = Library::new();
    let resp = SubsonicResponse {
        status: "ok".to_string(),
        version: "1.16.1".to_string(),
        data: None,
    };
    let r = lib.complete(&artist_key("A1"), Ok(resp));
    assert!(matches!(r, Err(LibraryError::EmptyChildren)));
    let wrong_kind = response(SubsonicData::Album(album("AL1", "First Light", vec![])));
    let r = lib.complete(&artist_key("A1"), Ok(wrong_kind));
    assert!(matches!(r, Err(LibraryError::EmptyChildren)));
    assert!(lib.get_item(&album_key("AL1")).is_none());
}

#[test]
fn listing_for_another_id_gives_empty_children_error() {
    let mut lib = Library::new();
    let page = response(SubsonicData::Artist(artist("A9", "Other", vec![])));
    let r = lib.complete(&artist_key("A1"), Ok(page));
    assert!(matches!(r, Err(LibraryError::EmptyChildren)));
    assert!(matches!(lib.cached_children(&artist_key("A9")), Some(v) if v.is_empty()));
}

#[test]
fn resolve_names_the_fetch_for_each_kind() {
    let lib = Library::new();
    assert!(matches!(lib.resolve(&LibraryItemKey::Root), Resolution::NeedsFetch(Fetch::Artists)));
    assert!(matches!(lib.resolve(&artist_key("A1")), Resolution::NeedsFetch(Fetch::Artist(id)) if id == "A1"));
    assert!(matches!(lib.resolve(&album_key("AL1")), Resolution::NeedsFetch(Fetch::Album(id)) if id == "AL1"));
    assert!(matches!(lib.resolve(&song_key("S1")), Resolution::Ready(v) if v.is_empty()));
}

#[test]
fn get_item_returns_cached_items() {
    let mut lib = Library::new();
    let mut server = FakeServer::new();
    assert!(lib.get_item(&artist_key("A1")).is_none());
    resolve_children(&mut lib, &mut server, &LibraryItemKey::Root).unwrap();
    match lib.get_item(&artist_key("B1")) {
        Some(LibraryItem::Artist(a)) => assert_eq!(a.name.as_str(), "Bjork"),
        other => panic!("unexpected item {:?}", other),
    }
    assert!(lib.get_item(&LibraryItemKey::Root).is_none());
}

#[test]
fn search_string_keeps_text_and_ignores_case() {
    let s = SearchString::from("First Light");
    assert_eq!(s.as_str(), "First Light");
    assert!(s.contains(&SearchString::from("first")));
    assert!(s.contains(&SearchString::from("LIGHT")));
    assert!(s.contains(&SearchString::from("t l")));
    assert!(s.contains(&SearchString::from("")));
    assert!(!s.contains(&SearchString::from("second")));
    assert!(!s.contains(&SearchString::from("First Light!")));
    assert!(SearchString::from("ÄRGER").contains(&SearchString::from("ärg")));
    assert_eq!(s.copied().as_str(), "First Light");
}

#[test]
fn key_helpers() {
    let k = artist_key("A1");
    assert!(k.same(&artist_key("A1")));
    assert!(!k.same(&album_key("A1")));
    assert!(!k.same(&artist_key("A2")));
    assert!(LibraryItemKey::Root.same(&LibraryItemKey::Root));
    assert_eq!(k.copied(), k);
}

#[test]
fn artist_listing_writes_albums_without_songs() {
    let mut lib = Library::new();
    let mut server = FakeServer::new();
    resolve_children(&mut lib, &mut server, &artist_key("A1")).unwrap();
    resolve_children(&mut lib, &mut server, &album_key("AL1")).unwrap();
    let page = server.fetch(&Fetch::Artist("A1".to_string()));
    let albums = lib.complete(&artist_key("A1"), page).unwrap();
    assert_eq!(keys(&albums), vec![album_key("AL1"), album_key("AL2")]);
    assert!(lib.cached_children(&album_key("AL1")).is_none());
    assert!(matches!(lib.resolve(&album_key("AL1")), Resolution::NeedsFetch(Fetch::Album(id)) if id == "AL1"));
}

#[test]
fn find_requests_match_ignoring_case() {
    let mut lib = Library::new();
    let mut server = FakeServer::new();
    server.albums = vec![album("AL1", "Dusk", vec![song("S1", "First Light", Some(1))])];
    resolve_children(&mut lib, &mut server, &album_key("AL1")).unwrap();
    for (id, query, found) in [(1, "first", true), (2, "LIGHT", true), (3, "second", false)] {
        match lib.handle(LibraryRequest::FindEntries(id, FindType::Any, query.to_string())) {
            Step::Reply(UiEvent::LibraryFindEntriesComplete(got, v)) => {
                assert_eq!(got, id);
                assert_eq!(keys(&v).contains(&song_key("S1")), found);
            }
            other => panic!("unexpected step {:?}", other),
        }
    }
}

#[test]
fn song_display_line() {
    let mut lib = Library::new();
    let mut server = FakeServer::new();
    let songs = resolve_children(&mut lib, &mut server, &album_key("AL1")).unwrap();
    match &songs[0].1 {
        LibraryItem::Song(s) => assert_eq!(s.display_line(), "3: Third [3:20]"),
        other => panic!("not a song: {:?}", other),
    }
    let song = navicon::library::Song {
        title: SearchString::from("Long"),
        track_number: None,
        duration: Some(3725),
    };
    assert_eq!(song.display_line(), "0: Long [62:05]");
    let song = navicon::library::Song {
        title: SearchString::from("Short"),
        track_number: Some(12),
        duration: None,
    };
    assert_eq!(song.display_line(), "12: Short [0:00]");
}

#[test]
fn error_messages() {
    assert_eq!(LibraryError::EmptyChildren.message(), "empty children");
    assert_eq!(LibraryError::Transport("timed out".to_string()).message(), "timed out");
    let e = navicon::conn::ConnectionError {
        code: navicon::conn::ConnectionErrorType::WrongCredentials,
        msg: Some("bad password".to_string()),
    };
    assert_eq!(LibraryError::Connection(e).message(), "WrongCredentials : bad password");
    let e = navicon::conn::ConnectionError {
        code: navicon::conn::ConnectionErrorType::Other(60),
        msg: None,
    };
    assert_eq!(e.message(), "Other(60)");
}

#[test]
fn root_lists_every_index_in_server_order() {
    let mut lib = Library::new();
    let page = root_page(vec![
        ("Z", vec![artist("Z1", "Zappa", vec![])]),
        ("A", vec![artist("A2", "Abba", vec![]), artist("A1", "Aurora", vec![])]),
    ]);
    let artists = lib.complete(&LibraryItemKey::Root, Ok(page)).unwrap();
    assert_eq!(keys(&artists), vec![artist_key("Z1"), artist_key("A2"), artist_key("A1")]);
    assert_eq!(texts(&artists), vec!["Zappa", "Abba", "Aurora"]);
}

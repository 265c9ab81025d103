//! Decoding a player's property map into a typed metadata record.
//!
//! A property map arrives as key/value pairs whose values are
//! dynamically typed; the decoder demands five fixed keys, each with a
//! fixed shape, and fails with a distinct error for the first key that
//! is absent or malformed. A record is only ever built from a complete
//! fetch: a partial map never yields a record with defaulted fields.

use vstd::prelude::*;

verus! {

/// Identity and descriptive metadata for one player's current item.
#[derive(Debug)]
pub struct Metadata {
    /// Bus object path identifying the track within its player session,
    /// carried in its textual form.
    pub mpris_trackid: String,
    /// Art URI; may be empty, never absent.
    pub mpris_arturl: String,
    /// Display title of the current item.
    pub xesam_title: String,
    /// Display album name of the current item.
    pub xesam_album: String,
    /// Artist names in presentation order; may be empty.
    pub xesam_artist: Vec<String>,
}

/// The mathematical image of a [`Metadata`] record.
pub struct MetadataView {
    pub mpris_trackid: Seq<char>,
    pub mpris_arturl: Seq<char>,
    pub xesam_title: Seq<char>,
    pub xesam_album: Seq<char>,
    pub xesam_artist: Seq<Seq<char>>,
}

impl View for Metadata {
    type V = MetadataView;

    open spec fn view(&self) -> MetadataView {
        MetadataView {
            mpris_trackid: self.mpris_trackid@,
            mpris_arturl: self.mpris_arturl@,
            xesam_title: self.xesam_title@,
            xesam_album: self.xesam_album@,
            xesam_artist: self.xesam_artist.deep_view(),
        }
    }
}

/// One dynamically typed property value as read off the bus, reduced
/// to the shapes the decoder distinguishes.
pub enum PropValue {
    /// A bus object path, carried in its textual form.
    ObjectPath(String),
    /// A plain string.
    Str(String),
    /// An array of strings.
    StrList(Vec<String>),
    /// Any other shape; convertible to no required field.
    Other,
}

/// The mathematical image of a [`PropValue`].
pub enum PropValueView {
    ObjectPath(Seq<char>),
    Str(Seq<char>),
    StrList(Seq<Seq<char>>),
    Other,
}

impl View for PropValue {
    type V = PropValueView;

    open spec fn view(&self) -> PropValueView {
        match self {
            PropValue::ObjectPath(s) => PropValueView::ObjectPath(s@),
            PropValue::Str(s) => PropValueView::Str(s@),
            PropValue::StrList(v) => PropValueView::StrList(v.deep_view()),
            PropValue::Other => PropValueView::Other,
        }
    }
}

impl DeepView for PropValue {
    type V = PropValueView;

    open spec fn deep_view(&self) -> PropValueView {
        self.view()
    }
}

/// Why a fetch yielded no record: the first required key that failed.
#[derive(Debug, PartialEq, Eq)]
pub enum FetchError {
    /// The named required key was absent from the property map.
    MissingField(String),
    /// The named required key was present but its value had the wrong
    /// shape for its field.
    TypeMismatch(String),
}

/// The mathematical image of a [`FetchError`].
pub enum FetchErrorView {
    MissingField(Seq<char>),
    TypeMismatch(Seq<char>),
}

impl View for FetchError {
    type V = FetchErrorView;

    open spec fn view(&self) -> FetchErrorView {
        match self {
            FetchError::MissingField(k) => FetchErrorView::MissingField(k@),
            FetchError::TypeMismatch(k) => FetchErrorView::TypeMismatch(k@),
        }
    }
}

/// A property map as the decoder sees it: keys paired with values, in
/// delivery order; an earlier pair shadows a later one of the same key.
pub type PropMapView = Seq<(Seq<char>, PropValueView)>;

/// The value under the first occurrence of `key`, if any.
pub open spec fn lookup(m: PropMapView, key: Seq<char>) -> Option<PropValueView>
    decreases m.len(),
{
    if m.len() == 0 {
        None
    } else if m[0].0 == key {
        Some(m[0].1)
    } else {
        lookup(m.drop_first(), key)
    }
}

/// The shape a required field expects of its value.
pub enum FieldKind {
    /// A bus object path.
    Path,
    /// A plain string.
    Text,
    /// An array of strings.
    TextList,
}

/// Whether a value has the given shape.
pub open spec fn kind_matches(v: PropValueView, kind: FieldKind) -> bool {
    match kind {
        FieldKind::Path => v is ObjectPath,
        FieldKind::Text => v is Str,
        FieldKind::TextList => v is StrList,
    }
}

/// The outcome of checking one required key: `None` when it is present
/// with the expected shape, otherwise the error the decoder reports.
pub open spec fn field_error(m: PropMapView, key: Seq<char>, kind: FieldKind) -> Option<
    FetchErrorView,
> {
    match lookup(m, key) {
        Option::None => Some(FetchErrorView::MissingField(key)),
        Option::Some(v) => if kind_matches(v, kind) {
            None
        } else {
            Some(FetchErrorView::TypeMismatch(key))
        },
    }
}

/// The required art-URL key.
pub open spec fn key_art_url() -> Seq<char> {
    "mpris:artUrl"@
}

/// The required track-identifier key.
pub open spec fn key_track_id() -> Seq<char> {
    "mpris:trackid"@
}

/// The required title key.
pub open spec fn key_title() -> Seq<char> {
    "xesam:title"@
}

/// The required artist-list key.
pub open spec fn key_artist() -> Seq<char> {
    "xesam:artist"@
}

/// The required album key.
pub open spec fn key_album() -> Seq<char> {
    "xesam:album"@
}

/// The first failing required key, checked in the decoder's fixed
/// order: art URL, track identifier, title, artist list, album.
/// `None` when every required key is present with its expected shape.
pub open spec fn decode_error(m: PropMapView) -> Option<FetchErrorView> {
    if field_error(m, key_art_url(), FieldKind::Text) is Some {
        field_error(m, key_art_url(), FieldKind::Text)
    } else if field_error(m, key_track_id(), FieldKind::Path) is Some {
        field_error(m, key_track_id(), FieldKind::Path)
    } else if field_error(m, key_title(), FieldKind::Text) is Some {
        field_error(m, key_title(), FieldKind::Text)
    } else if field_error(m, key_artist(), FieldKind::TextList) is Some {
        field_error(m, key_artist(), FieldKind::TextList)
    } else if field_error(m, key_album(), FieldKind::Text) is Some {
        field_error(m, key_album(), FieldKind::Text)
    } else {
        None
    }
}

/// The record a complete property map decodes to.
pub open spec fn decode_ok(m: PropMapView) -> MetadataView
    recommends
        decode_error(m) is None,
{
    MetadataView {
        mpris_arturl: lookup(m, key_art_url()).unwrap()->Str_0,
        mpris_trackid: lookup(m, key_track_id()).unwrap()->ObjectPath_0,
        xesam_title: lookup(m, key_title()).unwrap()->Str_0,
        xesam_artist: lookup(m, key_artist()).unwrap()->StrList_0,
        xesam_album: lookup(m, key_album()).unwrap()->Str_0,
    }
}

/// Decodes a property map into a metadata record: all five required
/// keys must be present and of the right shape, or the first failure,
/// in the fixed check order, is reported and no record is built.
pub fn decode_metadata(props: &Vec<(String, PropValue)>) -> (r: Result<Metadata, FetchError>)
    ensures
        match r {
            Result::Ok(md) => decode_error(props.deep_view()) is None && md@ == decode_ok(
                props.deep_view(),
            ),
            Result::Err(e) => decode_error(props.deep_view()) == Some(e@),
        },
{
    let mpris_arturl = match get_text(props, "mpris:artUrl") {
        Result::Ok(s) => s,
        Result::Err(e) => {
            return Err(e);
        },
    };
    let mpris_trackid = match get_path(props, "mpris:trackid") {
        Result::Ok(s) => s,
        Result::Err(e) => {
            return Err(e);
        },
    };
    let xesam_title = match get_text(props, "xesam:title") {
        Result::Ok(s) => s,
        Result::Err(e) => {
            return Err(e);
        },
    };
    let xesam_artist = match get_text_list(props, "xesam:artist") {
        Result::Ok(v) => v,
        Result::Err(e) => {
            return Err(e);
        },
    };
    let xesam_album = match get_text(props, "xesam:album") {
        Result::Ok(s) => s,
        Result::Err(e) => {
            return Err(e);
        },
    };
    Ok(
        Metadata {
            mpris_trackid,
            mpris_arturl,
            xesam_title,
            xesam_album,
            xesam_artist,
        },
    )
}

/// The value under the first occurrence of `key`, if any.
fn find_value<'a>(props: &'a Vec<(String, PropValue)>, key: &String) -> (r: Option<
    &'a PropValue,
>)
    ensures
        match r {
            Option::Some(v) => lookup(props.deep_view(), key@) == Some(v.deep_view()),
            Option::None => lookup(props.deep_view(), key@) is None,
        },
{
    let ghost m = props.deep_view();
    let mut found: Option<&PropValue> = None;
    let mut i: usize = props.len();
    while i > 0
        invariant
            i <= props.len(),
            m == props.deep_view(),
            match found {
                Option::Some(v) => lookup(m.skip(i as int), key@) == Some(v.deep_view()),
                Option::None => lookup(m.skip(i as int), key@) is None,
            },
        decreases i,
    {
        i -= 1;
        let pair = &props[i];
        proof {
            assert(m[i as int] == (props@[i as int].0@, props@[i as int].1.deep_view()));
            assert(m.skip(i as int)[0] == m[i as int]);
            assert(m.skip(i as int).drop_first() =~= m.skip(i as int + 1));
        }
        if pair.0.eq(key) {
            found = Some(&pair.1);
        }
    }
    proof {
        assert(m.skip(0) =~= m);
    }
    found
}

/// Reads the plain-string field under `key`.
fn get_text(props: &Vec<(String, PropValue)>, key: &str) -> (r: Result<String, FetchError>)
    ensures
        match r {
            Result::Ok(s) => field_error(props.deep_view(), key@, FieldKind::Text) is None
                && lookup(props.deep_view(), key@) == Some(PropValueView::Str(s@)),
            Result::Err(e) => field_error(props.deep_view(), key@, FieldKind::Text) == Some(e@),
        },
{
    let k = key.to_owned();
    match find_value(props, &k) {
        Option::None => Err(FetchError::MissingField(k)),
        Option::Some(PropValue::Str(s)) => Ok(s.clone()),
        Option::Some(_) => Err(FetchError::TypeMismatch(k)),
    }
}

/// Reads the object-path field under `key`.
fn get_path(props: &Vec<(String, PropValue)>, key: &str) -> (r: Result<String, FetchError>)
    ensures
        match r {
            Result::Ok(s) => field_error(props.deep_view(), key@, FieldKind::Path) is None
                && lookup(props.deep_view(), key@) == Some(PropValueView::ObjectPath(s@)),
            Result::Err(e) => field_error(props.deep_view(), key@, FieldKind::Path) == Some(e@),
        },
{
    let k = key.to_owned();
    match find_value(props, &k) {
        Option::None => Err(FetchError::MissingField(k)),
        Option::Some(PropValue::ObjectPath(s)) => Ok(s.clone()),
        Option::Some(_) => Err(FetchError::TypeMismatch(k)),
    }
}

/// Reads the string-array field under `key`.
fn get_text_list(props: &Vec<(String, PropValue)>, key: &str) -> (r: Result<
    Vec<String>,
    FetchError,
>)
    ensures
        match r {
            Result::Ok(v) => field_error(props.deep_view(), key@, FieldKind::TextList) is None
                && lookup(props.deep_view(), key@) == Some(PropValueView::StrList(v.deep_view())),
            Result::Err(e) => field_error(props.deep_view(), key@, FieldKind::TextList) == Some(
                e@,
            ),
        },
{
    let k = key.to_owned();
    match find_value(props, &k) {
        Option::None => Err(FetchError::MissingField(k)),
        Option::Some(PropValue::StrList(v)) => {
            let mut out: Vec<String> = Vec::new();
            let mut i: usize = 0;
            while i < v.len()
                invariant
                    i <= v.len(),
                    out.deep_view() == v.deep_view().subrange(0, i as int),
                decreases v.len() - i,
            {
                let ghost held = out.deep_view();
                out.push(v[i].clone());
                proof {
                    assert(v.deep_view()[i as int] == v@[i as int]@);
                    assert(out.deep_view() =~= held.push(v.deep_view()[i as int]));
                    assert(out.deep_view() =~= v.deep_view().subrange(0, i + 1));
                }
                i += 1;
            }
            proof {
                assert(v.deep_view().subrange(0, v.deep_view().len() as int) =~= v.deep_view());
            }
            Ok(out)
        },
        Option::Some(_) => Err(FetchError::TypeMismatch(k)),
    }
}

} // verus!

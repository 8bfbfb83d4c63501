//! The post item schema of a timeline payload, and its decoding from JSON.
//!
//! Each type reads from a JSON object: required members must be present with
//! the right kind of value, optional ones may be missing or null, and other
//! members are ignored. Members whose content the pipeline never reads are
//! kept as whether they are present (or, for lists, how many items they hold).
use vstd::prelude::*;
use crate::error::opt_view;
use crate::json::{
    as_text, get, opt_bool, opt_bool_field, opt_text, opt_text_field, present, present_field,
    req_bool, req_bool_field, req_text, req_text_field, req_u64, req_u64_field, req_u64_list,
    req_u64_list_field, u64_of, as_u64, get_field, Json,
};

verus! {

pub struct TweetMediaOriginalInfo {
    pub height: u64,
    pub width: u64,
}

pub struct TweetVideoInfoVariant {
    pub bitrate: u64,
    pub url: String,
}

pub struct TweetVideoInfo {
    pub variants: Vec<TweetVideoInfoVariant>,
}

pub struct TweetMedia {
    pub display_url: String,
    pub expanded_url: String,
    pub id_str: String,
    pub indices: Vec<u64>,
    pub media_url_https: String,
    pub _type: String,
    pub url: String,
    pub features: bool,
    pub sizes: bool,
    pub original_info: TweetMediaOriginalInfo,
    /// Only present in the extended entities.
    pub video_info: Option<TweetVideoInfo>,
}

pub struct TweetHashTag {
    pub indices: Vec<u64>,
    pub text: String,
}

pub struct TweetEntities {
    pub media: Option<Vec<TweetMedia>>,
    pub user_mentions: Option<usize>,
    pub urls: Option<usize>,
    pub hashtags: Option<Vec<TweetHashTag>>,
    pub symbols: Option<usize>,
}

pub struct TweetSelfThread {
    pub id_str: String,
}

pub struct TweetLegacy {
    pub created_at: String,
    pub id_str: String,
    pub user_id_str: String,
    pub conversation_id_str: String,
    pub full_text: String,
    pub source: Option<String>,
    pub lang: String,
    pub display_text_range: Vec<u64>,
    pub favorite_count: u64,
    pub favorited: bool,
    pub quote_count: u64,
    pub is_quote_status: bool,
    pub reply_count: u64,
    pub retweet_count: u64,
    pub retweeted: bool,
    pub possibly_sensitive: Option<bool>,
    pub possibly_sensitive_editable: Option<bool>,
    pub self_thread: Option<TweetSelfThread>,
    pub in_reply_to_screen_name: Option<String>,
    pub in_reply_to_status_id_str: Option<String>,
    pub in_reply_to_user_id_str: Option<String>,
    pub entities: TweetEntities,
    pub extended_entities: Option<TweetEntities>,
}

pub struct TweetUserLegacy {
    pub name: String,
    pub screen_name: String,
}

pub struct TweetUser {
    pub typename: String,
    pub legacy: TweetUserLegacy,
}

pub struct TweetCoreUserResults {
    pub result: TweetUser,
}

pub struct TweetCore {
    pub user_results: TweetCoreUserResults,
}

pub struct TweetItem {
    pub typename: String,
    pub rest_id: String,
    pub core: TweetCore,
    pub legacy: TweetLegacy,
}

/// The count of a list member whose items are not read: `Some(None)` when it
/// is missing or null, `None` when it holds something other than an array.
pub open spec fn opt_count(j: Json, key: Seq<char>) -> Option<Option<usize>> {
    match present(j, key) {
        None => Some(None),
        Some(Json::Array(items)) => Some(Some(items.len() as usize)),
        Some(_) => None,
    }
}

fn opt_count_field(j: &Json, key: &str) -> (r: Result<Option<usize>, ()>)
    ensures
        match r {
            Ok(o) => opt_count(*j, key@) == Some(o),
            Err(_) => opt_count(*j, key@) is None,
        },
{
    match present_field(j, key) {
        None => Ok(None),
        Some(Json::Array(items)) => Ok(Some(items.len())),
        Some(_) => Err(()),
    }
}

impl TweetMediaOriginalInfo {
    pub open spec fn decodable(j: Json) -> bool {
        req_u64(j, "height"@) is Some && req_u64(j, "width"@) is Some
    }

    pub open spec fn decoded_from(self, j: Json) -> bool {
        req_u64(j, "height"@) == Some(self.height) && req_u64(j, "width"@) == Some(self.width)
    }

    pub fn from_json(j: &Json) -> (r: Option<Self>)
        ensures
            match r {
                Some(t) => Self::decodable(*j) && t.decoded_from(*j),
                None => !Self::decodable(*j),
            },
    {
        let height = match req_u64_field(j, "height") {
            Some(v) => v,
            None => return None,
        };
        let width = match req_u64_field(j, "width") {
            Some(v) => v,
            None => return None,
        };
        Some(TweetMediaOriginalInfo { height, width })
    }
}

/// The bitrate of a variant that states none.
pub fn default_bitrate() -> (r: u64)
    ensures
        r == 0,
{
    0
}

/// The type name of an item that states none.
pub fn tweet_type_default() -> (r: String)
    ensures
        r@ == "Tweet"@,
{
    String::from_str("Tweet")
}

/// A variant's bitrate: 0 when the member is missing.
pub open spec fn bitrate_of(j: Json) -> Option<u64> {
    match get(j, "bitrate"@) {
        None => Some(0),
        Some(v) => as_u64(v),
    }
}

impl TweetVideoInfoVariant {
    pub open spec fn decodable(j: Json) -> bool {
        bitrate_of(j) is Some && req_text(j, "url"@) is Some
    }

    pub open spec fn decoded_from(self, j: Json) -> bool {
        bitrate_of(j) == Some(self.bitrate) && req_text(j, "url"@) == Some(self.url@)
    }

    pub fn from_json(j: &Json) -> (r: Option<Self>)
        ensures
            match r {
                Some(t) => Self::decodable(*j) && t.decoded_from(*j),
                None => !Self::decodable(*j),
            },
    {
        let bitrate = match get_field(j, "bitrate") {
            None => default_bitrate(),
            Some(v) => match u64_of(v) {
                Some(n) => n,
                None => return None,
            },
        };
        let url = match req_text_field(j, "url") {
            Some(v) => v,
            None => return None,
        };
        Some(TweetVideoInfoVariant { bitrate, url })
    }
}

pub open spec fn variants_decodable(items: Seq<Json>) -> bool {
    forall|i: int| 0 <= i < items.len() ==> TweetVideoInfoVariant::decodable(#[trigger] items[i])
}

pub open spec fn variants_decoded(v: Seq<TweetVideoInfoVariant>, items: Seq<Json>) -> bool {
    v.len() == items.len() && forall|i: int| 0 <= i < items.len() ==> (#[trigger] v[i]).decoded_from(items[i])
}

impl TweetVideoInfo {
    pub open spec fn decodable(j: Json) -> bool {
        get(j, "variants"@) matches Some(Json::Array(items)) && variants_decodable(items@)
    }

    pub open spec fn decoded_from(self, j: Json) -> bool {
        get(j, "variants"@) matches Some(Json::Array(items)) && variants_decoded(self.variants@, items@)
    }

    pub fn from_json(j: &Json) -> (r: Option<Self>)
        ensures
            match r {
                Some(t) => Self::decodable(*j) && t.decoded_from(*j),
                None => !Self::decodable(*j),
            },
    {
        let items = match get_field(j, "variants") {
            Some(Json::Array(items)) => items,
            _ => return None,
        };
        let mut out: Vec<TweetVideoInfoVariant> = Vec::new();
        let mut i: usize = 0;
        while i < items.len()
            invariant
                get(*j, "variants"@) == Some(Json::Array(*items)),
                i <= items@.len(),
                variants_decodable(items@.subrange(0, i as int)),
                variants_decoded(out@, items@.subrange(0, i as int)),
            decreases items.len() - i,
        {
            match TweetVideoInfoVariant::from_json(&items[i]) {
                Some(x) => out.push(x),
                None => return None,
            }
            i = i + 1;
            assert(items@.subrange(0, i as int).drop_last() =~= items@.subrange(0, i - 1));
        }
        assert(items@.subrange(0, i as int) =~= items@);
        Some(TweetVideoInfo { variants: out })
    }
}

impl TweetMedia {
    pub open spec fn decodable(j: Json) -> bool {
        &&& req_text(j, "display_url"@) is Some
        &&& req_text(j, "expanded_url"@) is Some
        &&& req_text(j, "id_str"@) is Some
        &&& req_u64_list(j, "indices"@) is Some
        &&& req_text(j, "media_url_https"@) is Some
        &&& req_text(j, "type"@) is Some
        &&& req_text(j, "url"@) is Some
        &&& get(j, "original_info"@) matches Some(o) && TweetMediaOriginalInfo::decodable(o)
        &&& present(j, "video_info"@) matches Some(v) ==> TweetVideoInfo::decodable(v)
    }

    pub open spec fn decoded_from(self, j: Json) -> bool {
        &&& req_text(j, "display_url"@) == Some(self.display_url@)
        &&& req_text(j, "expanded_url"@) == Some(self.expanded_url@)
        &&& req_text(j, "id_str"@) == Some(self.id_str@)
        &&& req_u64_list(j, "indices"@) == Some(self.indices@)
        &&& req_text(j, "media_url_https"@) == Some(self.media_url_https@)
        &&& req_text(j, "type"@) == Some(self._type@)
        &&& req_text(j, "url"@) == Some(self.url@)
        &&& self.features == present(j, "features"@) is Some
        &&& self.sizes == present(j, "sizes"@) is Some
        &&& get(j, "original_info"@) matches Some(o) && self.original_info.decoded_from(o)
        &&& match present(j, "video_info"@) {
            None => self.video_info is None,
            Some(v) => self.video_info matches Some(x) && x.decoded_from(v),
        }
    }

    pub fn from_json(j: &Json) -> (r: Option<Self>)
        ensures
            match r {
                Some(t) => Self::decodable(*j) && t.decoded_from(*j),
                None => !Self::decodable(*j),
            },
    {
        let display_url = match req_text_field(j, "display_url") {
            Some(v) => v,
            None => return None,
        };
        let expanded_url = match req_text_field(j, "expanded_url") {
            Some(v) => v,
            None => return None,
        };
        let id_str = match req_text_field(j, "id_str") {
            Some(v) => v,
            None => return None,
        };
        let indices = match req_u64_list_field(j, "indices") {
            Some(v) => v,
            None => return None,
        };
        let media_url_https = match req_text_field(j, "media_url_https") {
            Some(v) => v,
            None => return None,
        };
        let _type = match req_text_field(j, "type") {
            Some(v) => v,
            None => return None,
        };
        let url = match req_text_field(j, "url") {
            Some(v) => v,
            None => return None,
        };
        let original_info = match get_field(j, "original_info") {
            Some(o) => match TweetMediaOriginalInfo::from_json(o) {
                Some(x) => x,
                None => return None,
            },
            None => return None,
        };
        let video_info = match present_field(j, "video_info") {
            None => None,
            Some(v) => match TweetVideoInfo::from_json(v) {
                Some(x) => Some(x),
                None => return None,
            },
        };
        let features = present_field(j, "features").is_some();
        let sizes = present_field(j, "sizes").is_some();
        Some(
            TweetMedia {
                display_url,
                expanded_url,
                id_str,
                indices,
                media_url_https,
                _type,
                url,
                features,
                sizes,
                original_info,
                video_info,
            },
        )
    }
}

pub open spec fn medias_decodable(items: Seq<Json>) -> bool {
    forall|i: int| 0 <= i < items.len() ==> TweetMedia::decodable(#[trigger] items[i])
}

pub open spec fn medias_decoded(v: Seq<TweetMedia>, items: Seq<Json>) -> bool {
    v.len() == items.len() && forall|i: int| 0 <= i < items.len() ==> (#[trigger] v[i]).decoded_from(items[i])
}

fn medias_from_json(items: &Vec<Json>) -> (r: Option<Vec<TweetMedia>>)
    ensures
        match r {
            Some(v) => medias_decodable(items@) && medias_decoded(v@, items@),
            None => !medias_decodable(items@),
        },
{
    let mut out: Vec<TweetMedia> = Vec::new();
    let mut i: usize = 0;
    while i < items.len()
        invariant
            i <= items@.len(),
            medias_decodable(items@.subrange(0, i as int)),
            medias_decoded(out@, items@.subrange(0, i as int)),
        decreases items.len() - i,
    {
        match TweetMedia::from_json(&items[i]) {
            Some(x) => out.push(x),
            None => return None,
        }
        i = i + 1;
        assert(items@.subrange(0, i as int).drop_last() =~= items@.subrange(0, i - 1));
    }
    assert(items@.subrange(0, i as int) =~= items@);
    Some(out)
}

impl TweetHashTag {
    pub open spec fn decodable(j: Json) -> bool {
        req_u64_list(j, "indices"@) is Some && req_text(j, "text"@) is Some
    }

    pub open spec fn decoded_from(self, j: Json) -> bool {
        req_u64_list(j, "indices"@) == Some(self.indices@) && req_text(j, "text"@) == Some(self.text@)
    }

    pub fn from_json(j: &Json) -> (r: Option<Self>)
        ensures
            match r {
                Some(t) => Self::decodable(*j) && t.decoded_from(*j),
                None => !Self::decodable(*j),
            },
    {
        let indices = match req_u64_list_field(j, "indices") {
            Some(v) => v,
            None => return None,
        };
        let text = match req_text_field(j, "text") {
            Some(v) => v,
            None => return None,
        };
        Some(TweetHashTag { indices, text })
    }
}

pub open spec fn hashtags_decodable(items: Seq<Json>) -> bool {
    forall|i: int| 0 <= i < items.len() ==> TweetHashTag::decodable(#[trigger] items[i])
}

pub open spec fn hashtags_decoded(v: Seq<TweetHashTag>, items: Seq<Json>) -> bool {
    v.len() == items.len() && forall|i: int| 0 <= i < items.len() ==> (#[trigger] v[i]).decoded_from(items[i])
}

fn hashtags_from_json(items: &Vec<Json>) -> (r: Option<Vec<TweetHashTag>>)
    ensures
        match r {
            Some(v) => hashtags_decodable(items@) && hashtags_decoded(v@, items@),
            None => !hashtags_decodable(items@),
        },
{
    let mut out: Vec<TweetHashTag> = Vec::new();
    let mut i: usize = 0;
    while i < items.len()
        invariant
            i <= items@.len(),
            hashtags_decodable(items@.subrange(0, i as int)),
            hashtags_decoded(out@, items@.subrange(0, i as int)),
        decreases items.len() - i,
    {
        match TweetHashTag::from_json(&items[i]) {
            Some(x) => out.push(x),
            None => return None,
        }
        i = i + 1;
        assert(items@.subrange(0, i as int).drop_last() =~= items@.subrange(0, i - 1));
    }
    assert(items@.subrange(0, i as int) =~= items@);
    Some(out)
}

impl TweetEntities {
    pub open spec fn decodable(j: Json) -> bool {
        &&& present(j, "media"@) matches Some(m) ==> (m matches Json::Array(items) && medias_decodable(items@))
        &&& opt_count(j, "user_mentions"@) is Some
        &&& opt_count(j, "urls"@) is Some
        &&& present(j, "hashtags"@) matches Some(h) ==> (h matches Json::Array(items) && hashtags_decodable(items@))
        &&& opt_count(j, "symbols"@) is Some
    }

    pub open spec fn decoded_from(self, j: Json) -> bool {
        &&& match present(j, "media"@) {
            None => self.media is None,
            Some(m) => m matches Json::Array(items) && self.media matches Some(v) && medias_decoded(v@, items@),
        }
        &&& opt_count(j, "user_mentions"@) == Some(self.user_mentions)
        &&& opt_count(j, "urls"@) == Some(self.urls)
        &&& match present(j, "hashtags"@) {
            None => self.hashtags is None,
            Some(h) => h matches Json::Array(items) && self.hashtags matches Some(v) && hashtags_decoded(v@, items@),
        }
        &&& opt_count(j, "symbols"@) == Some(self.symbols)
    }

    pub fn from_json(j: &Json) -> (r: Option<Self>)
        ensures
            match r {
                Some(t) => Self::decodable(*j) && t.decoded_from(*j),
                None => !Self::decodable(*j),
            },
    {
        let media = match present_field(j, "media") {
            None => None,
            Some(Json::Array(items)) => match medias_from_json(items) {
                Some(v) => Some(v),
                None => return None,
            },
            Some(_) => return None,
        };
        let user_mentions = match opt_count_field(j, "user_mentions") {
            Ok(v) => v,
            Err(_) => return None,
        };
        let urls = match opt_count_field(j, "urls") {
            Ok(v) => v,
            Err(_) => return None,
        };
        let hashtags = match present_field(j, "hashtags") {
            None => None,
            Some(Json::Array(items)) => match hashtags_from_json(items) {
                Some(v) => Some(v),
                None => return None,
            },
            Some(_) => return None,
        };
        let symbols = match opt_count_field(j, "symbols") {
            Ok(v) => v,
            Err(_) => return None,
        };
        Some(TweetEntities { media, user_mentions, urls, hashtags, symbols })
    }
}

impl TweetSelfThread {
    pub open spec fn decodable(j: Json) -> bool {
        req_text(j, "id_str"@) is Some
    }

    pub open spec fn decoded_from(self, j: Json) -> bool {
        req_text(j, "id_str"@) == Some(self.id_str@)
    }

    pub fn from_json(j: &Json) -> (r: Option<Self>)
        ensures
            match r {
                Some(t) => Self::decodable(*j) && t.decoded_from(*j),
                None => !Self::decodable(*j),
            },
    {
        match req_text_field(j, "id_str") {
            Some(id_str) => Some(TweetSelfThread { id_str }),
            None => None,
        }
    }
}

impl TweetLegacy {
    pub open spec fn decodable(j: Json) -> bool {
        &&& req_text(j, "created_at"@) is Some
        &&& req_text(j, "id_str"@) is Some
        &&& req_text(j, "user_id_str"@) is Some
        &&& req_text(j, "conversation_id_str"@) is Some
        &&& req_text(j, "full_text"@) is Some
        &&& opt_text(j, "source"@) is Some
        &&& req_text(j, "lang"@) is Some
        &&& req_u64_list(j, "display_text_range"@) is Some
        &&& req_u64(j, "favorite_count"@) is Some
        &&& req_bool(j, "favorited"@) is Some
        &&& req_u64(j, "quote_count"@) is Some
        &&& req_bool(j, "is_quote_status"@) is Some
        &&& req_u64(j, "reply_count"@) is Some
        &&& req_u64(j, "retweet_count"@) is Some
        &&& req_bool(j, "retweeted"@) is Some
        &&& opt_bool(j, "possibly_sensitive"@) is Some
        &&& opt_bool(j, "possibly_sensitive_editable"@) is Some
        &&& present(j, "self_thread"@) matches Some(t) ==> TweetSelfThread::decodable(t)
        &&& opt_text(j, "in_reply_to_screen_name"@) is Some
        &&& opt_text(j, "in_reply_to_status_id_str"@) is Some
        &&& opt_text(j, "in_reply_to_user_id_str"@) is Some
        &&& get(j, "entities"@) matches Some(e) && TweetEntities::decodable(e)
        &&& present(j, "extended_entities"@) matches Some(e) ==> TweetEntities::decodable(e)
    }

    pub open spec fn decoded_from(self, j: Json) -> bool {
        &&& req_text(j, "created_at"@) == Some(self.created_at@)
        &&& req_text(j, "id_str"@) == Some(self.id_str@)
        &&& req_text(j, "user_id_str"@) == Some(self.user_id_str@)
        &&& req_text(j, "conversation_id_str"@) == Some(self.conversation_id_str@)
        &&& req_text(j, "full_text"@) == Some(self.full_text@)
        &&& opt_text(j, "source"@) == Some(opt_view(self.source))
        &&& req_text(j, "lang"@) == Some(self.lang@)
        &&& req_u64_list(j, "display_text_range"@) == Some(self.display_text_range@)
        &&& req_u64(j, "favorite_count"@) == Some(self.favorite_count)
        &&& req_bool(j, "favorited"@) == Some(self.favorited)
        &&& req_u64(j, "quote_count"@) == Some(self.quote_count)
        &&& req_bool(j, "is_quote_status"@) == Some(self.is_quote_status)
        &&& req_u64(j, "reply_count"@) == Some(self.reply_count)
        &&& req_u64(j, "retweet_count"@) == Some(self.retweet_count)
        &&& req_bool(j, "retweeted"@) == Some(self.retweeted)
        &&& opt_bool(j, "possibly_sensitive"@) == Some(self.possibly_sensitive)
        &&& opt_bool(j, "possibly_sensitive_editable"@) == Some(self.possibly_sensitive_editable)
        &&& match present(j, "self_thread"@) {
            None => self.self_thread is None,
            Some(t) => self.self_thread matches Some(x) && x.decoded_from(t),
        }
        &&& opt_text(j, "in_reply_to_screen_name"@) == Some(opt_view(self.in_reply_to_screen_name))
        &&& opt_text(j, "in_reply_to_status_id_str"@) == Some(opt_view(self.in_reply_to_status_id_str))
        &&& opt_text(j, "in_reply_to_user_id_str"@) == Some(opt_view(self.in_reply_to_user_id_str))
        &&& get(j, "entities"@) matches Some(e) && self.entities.decoded_from(e)
        &&& match present(j, "extended_entities"@) {
            None => self.extended_entities is None,
            Some(e) => self.extended_entities matches Some(x) && x.decoded_from(e),
        }
    }

    #[verifier::rlimit(40)]
    pub fn from_json(j: &Json) -> (r: Option<Self>)
        ensures
            match r {
                Some(t) => Self::decodable(*j) && t.decoded_from(*j),
                None => !Self::decodable(*j),
            },
    {
        let created_at = match req_text_field(j, "created_at") {
            Some(v) => v,
            None => return None,
        };
        let id_str = match req_text_field(j, "id_str") {
            Some(v) => v,
            None => return None,
        };
        let user_id_str = match req_text_field(j, "user_id_str") {
            Some(v) => v,
            None => return None,
        };
        let conversation_id_str = match req_text_field(j, "conversation_id_str") {
            Some(v) => v,
            None => return None,
        };
        let full_text = match req_text_field(j, "full_text") {
            Some(v) => v,
            None => return None,
        };
        let source = match opt_text_field(j, "source") {
            Ok(v) => v,
            Err(_) => return None,
        };
        let lang = match req_text_field(j, "lang") {
            Some(v) => v,
            None => return None,
        };
        let display_text_range = match req_u64_list_field(j, "display_text_range") {
            Some(v) => v,
            None => return None,
        };
        let favorite_count = match req_u64_field(j, "favorite_count") {
            Some(v) => v,
            None => return None,
        };
        let favorited = match req_bool_field(j, "favorited") {
            Some(v) => v,
            None => return None,
        };
        let quote_count = match req_u64_field(j, "quote_count") {
            Some(v) => v,
            None => return None,
        };
        let is_quote_status = match req_bool_field(j, "is_quote_status") {
            Some(v) => v,
            None => return None,
        };
        let reply_count = match req_u64_field(j, "reply_count") {
            Some(v) => v,
            None => return None,
        };
        let retweet_count = match req_u64_field(j, "retweet_count") {
            Some(v) => v,
            None => return None,
        };
        let retweeted = match req_bool_field(j, "retweeted") {
            Some(v) => v,
            None => return None,
        };
        let possibly_sensitive = match opt_bool_field(j, "possibly_sensitive") {
            Ok(v) => v,
            Err(_) => return None,
        };
        let possibly_sensitive_editable = match opt_bool_field(j, "possibly_sensitive_editable") {
            Ok(v) => v,
            Err(_) => return None,
        };
        let self_thread = match present_field(j, "self_thread") {
            None => None,
            Some(t) => match TweetSelfThread::from_json(t) {
                Some(x) => Some(x),
                None => return None,
            },
        };
        let in_reply_to_screen_name = match opt_text_field(j, "in_reply_to_screen_name") {
            Ok(v) => v,
            Err(_) => return None,
        };
        let in_reply_to_status_id_str = match opt_text_field(j, "in_reply_to_status_id_str") {
            Ok(v) => v,
            Err(_) => return None,
        };
        let in_reply_to_user_id_str = match opt_text_field(j, "in_reply_to_user_id_str") {
            Ok(v) => v,
            Err(_) => return None,
        };
        let entities = match get_field(j, "entities") {
            Some(e) => match TweetEntities::from_json(e) {
                Some(x) => x,
                None => return None,
            },
            None => return None,
        };
        let extended_entities = match present_field(j, "extended_entities") {
            None => None,
            Some(e) => match TweetEntities::from_json(e) {
                Some(x) => Some(x),
                None => return None,
            },
        };
        Some(
            TweetLegacy {
                created_at,
                id_str,
                user_id_str,
                conversation_id_str,
                full_text,
                source,
                lang,
                display_text_range,
                favorite_count,
                favorited,
                quote_count,
                is_quote_status,
                reply_count,
                retweet_count,
                retweeted,
                possibly_sensitive,
                possibly_sensitive_editable,
                self_thread,
                in_reply_to_screen_name,
                in_reply_to_status_id_str,
                in_reply_to_user_id_str,
                entities,
                extended_entities,
            },
        )
    }
}

impl TweetUserLegacy {
    pub open spec fn decodable(j: Json) -> bool {
        req_text(j, "name"@) is Some && req_text(j, "screen_name"@) is Some
    }

    pub open spec fn decoded_from(self, j: Json) -> bool {
        req_text(j, "name"@) == Some(self.name@) && req_text(j, "screen_name"@) == Some(self.screen_name@)
    }

    pub fn from_json(j: &Json) -> (r: Option<Self>)
        ensures
            match r {
                Some(t) => Self::decodable(*j) && t.decoded_from(*j),
                None => !Self::decodable(*j),
            },
    {
        let name = match req_text_field(j, "name") {
            Some(v) => v,
            None => return None,
        };
        let screen_name = match req_text_field(j, "screen_name") {
            Some(v) => v,
            None => return None,
        };
        Some(TweetUserLegacy { name, screen_name })
    }
}

impl TweetUser {
    pub open spec fn decodable(j: Json) -> bool {
        &&& req_text(j, "__typename"@) is Some
        &&& get(j, "legacy"@) matches Some(l) && TweetUserLegacy::decodable(l)
    }

    pub open spec fn decoded_from(self, j: Json) -> bool {
        &&& req_text(j, "__typename"@) == Some(self.typename@)
        &&& get(j, "legacy"@) matches Some(l) && self.legacy.decoded_from(l)
    }

    pub fn from_json(j: &Json) -> (r: Option<Self>)
        ensures
            match r {
                Some(t) => Self::decodable(*j) && t.decoded_from(*j),
                None => !Self::decodable(*j),
            },
    {
        let typename = match req_text_field(j, "__typename") {
            Some(v) => v,
            None => return None,
        };
        let legacy = match get_field(j, "legacy") {
            Some(l) => match TweetUserLegacy::from_json(l) {
                Some(x) => x,
                None => return None,
            },
            None => return None,
        };
        Some(TweetUser { typename, legacy })
    }
}

impl TweetCoreUserResults {
    pub open spec fn decodable(j: Json) -> bool {
        get(j, "result"@) matches Some(u) && TweetUser::decodable(u)
    }

    pub open spec fn decoded_from(self, j: Json) -> bool {
        get(j, "result"@) matches Some(u) && self.result.decoded_from(u)
    }

    pub fn from_json(j: &Json) -> (r: Option<Self>)
        ensures
            match r {
                Some(t) => Self::decodable(*j) && t.decoded_from(*j),
                None => !Self::decodable(*j),
            },
    {
        match get_field(j, "result") {
            Some(u) => match TweetUser::from_json(u) {
                Some(result) => Some(TweetCoreUserResults { result }),
                None => None,
            },
            None => None,
        }
    }
}

impl TweetCore {
    pub open spec fn decodable(j: Json) -> bool {
        get(j, "user_results"@) matches Some(u) && TweetCoreUserResults::decodable(u)
    }

    pub open spec fn decoded_from(self, j: Json) -> bool {
        get(j, "user_results"@) matches Some(u) && self.user_results.decoded_from(u)
    }

    pub fn from_json(j: &Json) -> (r: Option<Self>)
        ensures
            match r {
                Some(t) => Self::decodable(*j) && t.decoded_from(*j),
                None => !Self::decodable(*j),
            },
    {
        match get_field(j, "user_results") {
            Some(u) => match TweetCoreUserResults::from_json(u) {
                Some(user_results) => Some(TweetCore { user_results }),
                None => None,
            },
            None => None,
        }
    }
}

/// The item's type name: `Tweet` when the member is missing.
pub open spec fn item_kind_of(j: Json) -> Option<Seq<char>> {
    match get(j, "__typename"@) {
        None => Some("Tweet"@),
        Some(v) => as_text(v),
    }
}

impl TweetItem {
    pub open spec fn decodable(j: Json) -> bool {
        &&& item_kind_of(j) is Some
        &&& req_text(j, "rest_id"@) is Some
        &&& get(j, "core"@) matches Some(c) && TweetCore::decodable(c)
        &&& get(j, "legacy"@) matches Some(l) && TweetLegacy::decodable(l)
    }

    pub open spec fn decoded_from(self, j: Json) -> bool {
        &&& item_kind_of(j) == Some(self.typename@)
        &&& req_text(j, "rest_id"@) == Some(self.rest_id@)
        &&& get(j, "core"@) matches Some(c) && self.core.decoded_from(c)
        &&& get(j, "legacy"@) matches Some(l) && self.legacy.decoded_from(l)
    }

    pub fn from_json(j: &Json) -> (r: Option<Self>)
        ensures
            match r {
                Some(t) => Self::decodable(*j) && t.decoded_from(*j),
                None => !Self::decodable(*j),
            },
    {
        let typename = match get_field(j, "__typename") {
            None => tweet_type_default(),
            Some(Json::Str(t)) => t.clone(),
            Some(_) => return None,
        };
        let rest_id = match req_text_field(j, "rest_id") {
            Some(v) => v,
            None => return None,
        };
        let core = match get_field(j, "core") {
            Some(c) => match TweetCore::from_json(c) {
                Some(x) => x,
                None => return None,
            },
            None => return None,
        };
        let legacy = match get_field(j, "legacy") {
            Some(l) => match TweetLegacy::from_json(l) {
                Some(x) => x,
                None => return None,
            },
            None => return None,
        };
        Some(TweetItem { typename, rest_id, core, legacy })
    }
}

/// The image URLs of a media list joined by `, `.
pub open spec fn joined_urls(ms: Seq<TweetMedia>) -> Seq<char>
    decreases ms.len(),
{
    if ms.len() == 0 {
        Seq::empty()
    } else if ms.len() == 1 {
        ms[0].media_url_https@
    } else {
        joined_urls(ms.drop_last()) + ", "@ + ms.last().media_url_https@
    }
}

impl TweetItem {
    /// `TweetItem<id>`, followed by `[url, ...]` of the base entities' images when there are any.
    pub open spec fn describe_spec(&self) -> Seq<char> {
        let ms = match self.legacy.entities.media {
            Some(v) => v@,
            None => Seq::empty(),
        };
        if ms.len() == 0 {
            "TweetItem<"@ + self.rest_id@ + ">"@
        } else {
            "TweetItem<"@ + self.rest_id@ + ">["@ + joined_urls(ms) + "]"@
        }
    }

    /// A short description of the item: its id and its image URLs.
    pub fn describe(&self) -> (r: String)
        ensures
            r@ == self.describe_spec(),
    {
        let mut s = String::from_str("TweetItem<");
        s.append(self.rest_id.as_str());
        match &self.legacy.entities.media {
            Some(v) if v.len() > 0 => {
                s.append(">[");
                let ghost head = s@;
                let mut i: usize = 0;
                while i < v.len()
                    invariant
                        i <= v@.len(),
                        v@.len() > 0,
                        s@ == head + joined_urls(v@.subrange(0, i as int)),
                    decreases v.len() - i,
                {
                    let ghost pre = v@.subrange(0, i as int + 1);
                    assert(pre.drop_last() =~= v@.subrange(0, i as int));
                    assert(pre.last() == v@[i as int]);
                    if i > 0 {
                        s.append(", ");
                        s.append(v[i].media_url_https.as_str());
                        assert(s@ =~= head + joined_urls(pre));
                    } else {
                        s.append(v[i].media_url_https.as_str());
                        assert(joined_urls(pre) == v@[0].media_url_https@);
                        assert(s@ =~= head + joined_urls(pre));
                    }
                    i = i + 1;
                }
                assert(v@.subrange(0, v@.len() as int) =~= v@);
                s.append("]");
            },
            _ => {
                s.append(">");
            },
        }
        s
    }
}

} // verus!

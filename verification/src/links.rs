//! Links.
use crate::keyboard::{
    callback, callback_view, link, push_row, row2, url_view, ButtonOf, ButtonView,
    InlineKeyboardButton, InlineKeyboardMarkup, InlineView,
};
use vstd::prelude::*;

verus! {

/// The normal form of a text as a URL, if it is one.
pub uninterp spec fn url_text(s: Seq<char>) -> Option<Seq<char>>;

/// `Url::parse`: whether the text is a URL, and the text of that URL, depend on the
/// text alone.
#[verifier::external_body]
pub(crate) fn parse_url(s: &str) -> (r: Option<String>)
    ensures
        r.deep_view() == url_text(s@),
{
    url::Url::parse(s).ok().map(String::from)
}

/// A button that opens a link, or where there is none sends data back.
pub open spec fn link_or_callback_view(
    label: Seq<char>,
    url: Option<Seq<char>>,
    data: Seq<char>,
) -> ButtonView {
    match url {
        Some(u) => url_view(label, u),
        None => callback_view(label, data),
    }
}

/// A button that opens a link, or where there is none sends data back.
pub fn link_or_callback(label: &str, target: Option<String>, data: &str) -> (r: InlineKeyboardButton)
    ensures
        r.deep_view() == link_or_callback_view(label@, target.deep_view(), data@),
{
    match target {
        Some(u) => link(label.to_string(), u),
        None => callback(label.to_string(), data.to_string()),
    }
}

/// Where the first folder of channels is joined.
pub const LINK_ACTIVITIES: &'static str = "https://t.me/addlist/Q3mkHDAfwjYyYjU0";

/// Where the second folder of channels is joined.
pub const LINK_CALLERS: &'static str = "https://t.me/addlist/TyvbTgRFp5QwY2Y0";

/// Where the third folder of channels is joined.
pub const LINK_FARM: &'static str = "https://t.me/addlist/qzsI2WN7hXExNTdk";

/// Where the fourth folder of channels is joined.
pub const LINK_OTHER: &'static str = "https://t.me/addlist/Gy2SNd_HDPNjNmY0";

/// The keyboard with the folders of channels, given which of the links are URLs.
pub open spec fn folder_links(
    activities: Option<Seq<char>>,
    callers: Option<Seq<char>>,
    farm: Option<Seq<char>>,
    other: Option<Seq<char>>,
) -> InlineView {
    seq![
        seq![
            link_or_callback_view("АКТИВНОСТИ +"@, activities, "show_folder:aktivnosti"@),
            link_or_callback_view("ЛУДИКИ"@, callers, "show_folder:ludiki"@),
        ],
        seq![
            link_or_callback_view("Фармилка"@, farm, "show_folder:farmilka"@),
            link_or_callback_view("Прочее"@, other, "show_folder:other"@),
        ],
    ]
}

/// The keyboard with the folders of channels, given which of the links are URLs.
pub fn folder_keyboard(
    activities: Option<String>,
    callers: Option<String>,
    farm: Option<String>,
    other: Option<String>,
) -> (r: InlineKeyboardMarkup)
    ensures
        r.deep_view() == folder_links(
            activities.deep_view(),
            callers.deep_view(),
            farm.deep_view(),
            other.deep_view(),
        ),
{
    let mut rows: Vec<Vec<InlineKeyboardButton>> = Vec::new();
    let ghost none = rows.deep_view();
    assert(none =~= seq![]);
    push_row(
        &mut rows,
        row2(
            link_or_callback("АКТИВНОСТИ +", activities, "show_folder:aktivnosti"),
            link_or_callback("ЛУДИКИ", callers, "show_folder:ludiki"),
        ),
    );
    push_row(
        &mut rows,
        row2(
            link_or_callback("Фармилка", farm, "show_folder:farmilka"),
            link_or_callback("Прочее", other, "show_folder:other"),
        ),
    );
    assert(rows.deep_view() =~= folder_links(
        activities.deep_view(),
        callers.deep_view(),
        farm.deep_view(),
        other.deep_view(),
    ));
    InlineKeyboardMarkup { rows }
}

/// The keyboard with the folders of channels.
pub open spec fn folders_view() -> InlineView {
    folder_links(
        url_text(LINK_ACTIVITIES@),
        url_text(LINK_CALLERS@),
        url_text(LINK_FARM@),
        url_text(LINK_OTHER@),
    )
}

/// The keyboard with the folders of channels.
pub fn folders() -> (r: InlineKeyboardMarkup)
    ensures
        r.deep_view() == folders_view(),
{
    folder_keyboard(
        parse_url(LINK_ACTIVITIES),
        parse_url(LINK_CALLERS),
        parse_url(LINK_FARM),
        parse_url(LINK_OTHER),
    )
}

/// Each folder of channels is a button that leads to where that folder is joined, if that is a
/// URL: four of them, in two rows.
pub proof fn folders_lead_to_their_links(a: Seq<char>, b: Seq<char>, c: Seq<char>, d: Seq<char>)
    ensures
        ({
            let rows = folder_links(Some(a), Some(b), Some(c), Some(d));
            &&& rows.len() == 2 && rows[0].len() == 2 && rows[1].len() == 2
            &&& rows[0][0] matches ButtonOf::Url { url, .. } && url == a
            &&& rows[0][1] matches ButtonOf::Url { url, .. } && url == b
            &&& rows[1][0] matches ButtonOf::Url { url, .. } && url == c
            &&& rows[1][1] matches ButtonOf::Url { url, .. } && url == d
        }),
        url_text(LINK_ACTIVITIES@) is Some ==> (folders_view()[0][0] matches ButtonOf::Url {
            url,
            ..
        } && url == url_text("https://t.me/addlist/Q3mkHDAfwjYyYjU0"@)->0),
        url_text(LINK_CALLERS@) is Some ==> (folders_view()[0][1] matches ButtonOf::Url { url, .. }
            && url == url_text("https://t.me/addlist/TyvbTgRFp5QwY2Y0"@)->0),
        url_text(LINK_FARM@) is Some ==> (folders_view()[1][0] matches ButtonOf::Url { url, .. }
            && url == url_text("https://t.me/addlist/qzsI2WN7hXExNTdk"@)->0),
        url_text(LINK_OTHER@) is Some ==> (folders_view()[1][1] matches ButtonOf::Url { url, .. }
            && url == url_text("https://t.me/addlist/Gy2SNd_HDPNjNmY0"@)->0),
        folder_links(None, None, None, None)[0][0] is Callback,
{
}

/// A button with a link opens it, one without sends its data back, and either shows its label;
/// a folder whose link is no URL is asked for by its own name.
pub proof fn buttons_open_links_or_send_data(label: Seq<char>, url: Seq<char>, data: Seq<char>)
    ensures
        link_or_callback_view(label, Some(url), data) matches ButtonOf::Url { text, url: to }
            && text == label && to == url,
        link_or_callback_view(label, None, data) matches ButtonOf::Callback { text, data: sent }
            && text == label && sent == data,
        ({
            let rows = folder_links(None, None, None, None);
            &&& rows[0][0] matches ButtonOf::Callback { data, .. } && data
                == "show_folder:aktivnosti"@
            &&& rows[0][1] matches ButtonOf::Callback { data, .. } && data == "show_folder:ludiki"@
            &&& rows[1][0] matches ButtonOf::Callback { data, .. } && data
                == "show_folder:farmilka"@
            &&& rows[1][1] matches ButtonOf::Callback { data, .. } && data == "show_folder:other"@
        }),
{
}

} // verus!

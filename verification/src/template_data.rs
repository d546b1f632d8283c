//! What every page of the site is rendered from.

use crate::asset_table::{pairs_of, Pair};
use crate::cache_buster::{lookup_of, CacheBuster};
use crate::number::decimal_of;
use crate::settings::base_settings::BaseSettings;
use crate::templates::schema::copyright::Copyright;
use crate::templates::schema::footer::Footer;
use crate::templates::schema::metadata::{keywords_of, Metadata};
use crate::templates::schema::page::Page;
use crate::templates::schema::social_media::SocialMedia;
use crate::templates::schema::twitter::Twitter;
use crate::text::{join2, split, texts_of};
use vstd::prelude::*;

verus! {

/// What every page of the site is rendered from.
#[derive(Clone, Debug)]
pub struct TemplateData {
    pub metadata: Metadata,
    pub footer: Footer,
    pub page: Option<Page>,
    pub social_media: Vec<SocialMedia>,
    pub cache_buster: Vec<(String, String)>,
}

/// The original path of the image that social networks show for the site.
pub open spec fn social_image_path() -> Seq<char> {
    "static/image/social/todo.webp"@
}

/// The profiles of the author, each as the name of the network and the
/// address of the profile.
pub open spec fn author_profiles() -> Seq<(Seq<char>, Seq<char>)> {
    seq![
        ("Twitter"@, "https://twitter.com/goddtriffin"@),
        ("Instagram"@, "https://www.instagram.com/goddtriffin/"@),
        ("Facebook"@, "https://www.facebook.com/goddtriffin/"@),
        ("YouTube"@, "https://www.youtube.com/channel/UC1YNQd3SqLkl2CjwbvJBYoQ"@),
        ("Github"@, "https://github.com/goddtriffin"@),
        ("Stack Overflow"@, "https://stackoverflow.com/users/11767294/goddtriffin"@),
        ("Reddit"@, "https://www.reddit.com/user/goddtriffin"@),
    ]
}

/// Profiles as plain values.
pub open spec fn profiles_of(profiles: Seq<SocialMedia>) -> Seq<(Seq<char>, Seq<char>)> {
    Seq::new(profiles.len(), |i: int| (profiles[i].name@, profiles[i].link@))
}

/// Whether `data` is what the pages of the site with these settings and
/// this table of assets are rendered from, before a page is chosen.
pub open spec fn describes_site(
    data: TemplateData,
    settings: BaseSettings,
    directory: Seq<char>,
    table: Map<Seq<char>, Seq<char>>,
    pairs: Seq<Pair>,
) -> bool {
    &&& data.metadata.language_code@ == "en"@
    &&& data.metadata.country_code@ == "US"@
    &&& data.metadata.charset@ == "utf-8"@
    &&& data.metadata.description@ == settings.project_description@
    &&& data.metadata.project@ == settings.project_name@
    &&& data.metadata.author@ == "Todd Everett Griffin"@
    &&& data.metadata.twitter.username@ == "@goddtriffin"@
    &&& data.metadata.home_url@ == settings.home_url@
    &&& texts_of(data.metadata.keywords@) == keywords_of(settings.project_keywords@)
    &&& data.metadata.theme_color@ == "#f7cb64"@
    &&& data.metadata.social_image@ == "/"@ + lookup_of(directory, table, social_image_path())
    &&& data.footer.copyright.start@ == "1998"@
    &&& data.page is None
    &&& profiles_of(data.social_media@) == author_profiles()
    &&& pairs_of(data.cache_buster@) == pairs
}

impl TemplateData {
    /// The data of the site in the year `year`, which the caller reads from
    /// the clock: what the site says of itself, its footer with the
    /// copyright from 1998 to `year`, the profiles of the author, and the
    /// whole table of assets. No page is chosen yet.
    pub fn new(settings: BaseSettings, cache_buster: &CacheBuster, year: i32) -> (data: Self)
        requires
            cache_buster.wf(),
        ensures
            describes_site(
                data,
                settings,
                cache_buster.directory(),
                cache_buster@,
                cache_buster.pairs(),
            ),
            data.footer.copyright.end@ == decimal_of(year as int),
    {
        let mut social_media: Vec<SocialMedia> = Vec::new();
        social_media.push(SocialMedia::new("Twitter", "https://twitter.com/goddtriffin"));
        social_media.push(SocialMedia::new("Instagram", "https://www.instagram.com/goddtriffin/"));
        social_media.push(SocialMedia::new("Facebook", "https://www.facebook.com/goddtriffin/"));
        social_media.push(
            SocialMedia::new("YouTube", "https://www.youtube.com/channel/UC1YNQd3SqLkl2CjwbvJBYoQ"),
        );
        social_media.push(SocialMedia::new("Github", "https://github.com/goddtriffin"));
        social_media.push(
            SocialMedia::new(
                "Stack Overflow",
                "https://stackoverflow.com/users/11767294/goddtriffin",
            ),
        );
        social_media.push(SocialMedia::new("Reddit", "https://www.reddit.com/user/goddtriffin"));
        assert(profiles_of(social_media@) =~= author_profiles());
        let keywords = split(settings.project_keywords.as_str(), ',');
        let social_image = cache_buster.get_file("static/image/social/todo.webp");
        let data = TemplateData {
            metadata: Metadata::new(
                "en".to_owned(),
                "US".to_owned(),
                "utf-8".to_owned(),
                settings.project_description.clone(),
                settings.project_name.clone(),
                "Todd Everett Griffin".to_owned(),
                Twitter::new("@goddtriffin".to_owned()),
                settings.home_url,
                keywords,
                "#f7cb64".to_owned(),
                join2("/", social_image.as_str()),
            ),
            footer: Footer::new(Copyright::new("1998".to_owned(), year)),
            page: None,
            social_media,
            cache_buster: cache_buster.get_cache(),
        };
        data
    }

    /// The data with `page` as the page to render. Nothing else changes.
    pub fn render(self, page: Page) -> (data: Self)
        ensures
            data.page == Some(page),
            data.metadata == self.metadata,
            data.footer == self.footer,
            data.social_media == self.social_media,
            data.cache_buster == self.cache_buster,
    {
        let mut data = self;
        data.page = Some(page);
        data
    }
}

} // verus!

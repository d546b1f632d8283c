//! What a page says of itself to browsers, search engines and social
//! networks.

use crate::templates::schema::twitter::Twitter;
use crate::text::{split, split_of, texts_of};
use vstd::prelude::*;

verus! {

/// What a page says of itself.
#[derive(Clone, Debug)]
pub struct Metadata {
    pub language_code: String,
    pub country_code: String,
    pub charset: String,
    pub description: String,
    pub project: String,
    pub author: String,
    pub twitter: Twitter,
    pub home_url: String,
    pub keywords: Vec<String>,
    pub theme_color: String,
    pub social_image: String,
}

/// The keywords of a list that keeps them apart by commas. Nothing is
/// trimmed, and an empty list has one empty keyword.
pub open spec fn keywords_of(list: Seq<char>) -> Seq<Seq<char>> {
    split_of(list, ',')
}

impl Metadata {
    /// The metadata made of the given parts.
    pub fn new(
        language_code: String,
        country_code: String,
        charset: String,
        description: String,
        project: String,
        author: String,
        twitter: Twitter,
        home_url: String,
        keywords: Vec<String>,
        theme_color: String,
        social_image: String,
    ) -> (metadata: Self)
        ensures
            metadata.language_code == language_code,
            metadata.country_code == country_code,
            metadata.charset == charset,
            metadata.description == description,
            metadata.project == project,
            metadata.author == author,
            metadata.twitter == twitter,
            metadata.home_url == home_url,
            metadata.keywords == keywords,
            metadata.theme_color == theme_color,
            metadata.social_image == social_image,
    {
        Metadata {
            language_code,
            country_code,
            charset,
            description,
            project,
            author,
            twitter,
            home_url,
            keywords,
            theme_color,
            social_image,
        }
    }

    /// The metadata of a project of the author's: in American English and
    /// UTF-8, with the keywords of the list `keywords`, which keeps them
    /// apart by commas.
    pub fn new_with_defaults(
        project_description: &str,
        project_name: &str,
        home_url: &str,
        keywords: &str,
        theme_color: &str,
        social_image: &str,
    ) -> (metadata: Self)
        ensures
            metadata.language_code@ == "en"@,
            metadata.country_code@ == "US"@,
            metadata.charset@ == "utf-8"@,
            metadata.description@ == project_description@,
            metadata.project@ == project_name@,
            metadata.author@ == "Todd Everett Griffin"@,
            metadata.twitter.username@ == "@goddtriffin"@,
            metadata.home_url@ == home_url@,
            texts_of(metadata.keywords@) == keywords_of(keywords@),
            metadata.theme_color@ == theme_color@,
            metadata.social_image@ == social_image@,
    {
        Metadata::new(
            "en".to_owned(),
            "US".to_owned(),
            "utf-8".to_owned(),
            project_description.to_owned(),
            project_name.to_owned(),
            "Todd Everett Griffin".to_owned(),
            Twitter::new("@goddtriffin".to_owned()),
            home_url.to_owned(),
            split(keywords, ','),
            theme_color.to_owned(),
            social_image.to_owned(),
        )
    }
}

} // verus!

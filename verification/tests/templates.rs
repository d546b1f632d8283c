use http::{HeaderMap, HeaderValue};
use webserver_base::analytics::{analytics_status, pageview_event};
use webserver_base::cache_buster::CacheBuster;
use webserver_base::settings::base_settings::{BaseSettings, Variables};
use webserver_base::walker::{AssetWalk, WalkEntry, WalkEvent};
use webserver_base::{
    Copyright, Footer, Header, Image, Metadata, NavLink, Page, RequestPayload, SocialMedia,
    TemplateData, Twitter,
};

fn settings_in(environment: &str) -> BaseSettings {
    BaseSettings::from_variables(Variables {
        environment: Some(environment.to_string()),
        host: None,
        port: None,
        project_name: Some("Project".to_string()),
        project_description: Some("A project.".to_string()),
        project_keywords: Some("rust,web, verified".to_string()),
        home_url: Some("https://example.org".to_string()),
        analytics_domain: Some("example.org".to_string()),
        sentry_dsn: Some("dsn".to_string()),
    })
    .unwrap()
}

fn buster_with_social_image() -> CacheBuster {
    let mut walk = AssetWalk::new("static");
    let path = "static/image/social/todo.webp".to_string();
    walk.step(WalkEvent::Listing(vec![WalkEntry { path, is_dir: false }])).unwrap();
    walk.step(WalkEvent::Contents(b"abcdefghijklmnopqrstuvwxyz".to_vec())).unwrap();
    walk.step(WalkEvent::Renamed).unwrap();
    let mut buster = CacheBuster::new("static");
    buster.gen_cache(walk).unwrap();
    buster
}

#[test]
fn parts_of_a_page() {
    let image = Image::new("logo.png", "The logo");
    assert_eq!((image.name.as_str(), image.alt.as_str()), ("logo.png", "The logo"));
    let link = NavLink::new("Home", "/");
    assert_eq!((link.display_name.as_str(), link.url.as_str()), ("Home", "/"));
    let profile = SocialMedia::new("Github", "https://github.com/x");
    assert_eq!((profile.name.as_str(), profile.link.as_str()), ("Github", "https://github.com/x"));
    let copy = profile.clone();
    assert_eq!((copy.name, copy.link), (profile.name, profile.link));
    assert_eq!(Twitter::new("@x".to_string()).username, "@x");
    let header = Header::new(vec![NavLink::new("A", "/a"), NavLink::new("B", "/b")]);
    assert_eq!(header.nav_links.len(), 2);
    assert_eq!(header.nav_links[1].url, "/b");
    let page = Page::new(
        "Home".to_string(),
        "/".to_string(),
        vec!["static/stylesheet/main.css".to_string()],
        vec!["static/script/scitylana.js".to_string()],
    );
    assert_eq!(page.display_name, "Home");
    assert_eq!(page.url, "/");
    assert_eq!(page.style_sheets, ["static/stylesheet/main.css"]);
    assert_eq!(page.scripts, ["static/script/scitylana.js"]);
}

#[test]
fn copyright_runs_to_the_given_year() {
    let copyright = Copyright::new("1998".to_string(), 2024);
    assert_eq!((copyright.start.as_str(), copyright.end.as_str()), ("1998", "2024"));
    let footer = Footer::new(copyright.clone());
    assert_eq!(footer.copyright.start, "1998");
    assert_eq!(footer.copyright.end, "2024");
    assert_eq!(Copyright::new(String::new(), -44).end, "-44");
}

#[test]
fn metadata_keeps_its_parts() {
    let metadata = Metadata::new(
        "de".to_string(),
        "AT".to_string(),
        "latin1".to_string(),
        "d".to_string(),
        "p".to_string(),
        "a".to_string(),
        Twitter::new("@t".to_string()),
        "h".to_string(),
        vec!["k1".to_string(), "k2".to_string()],
        "#000".to_string(),
        "s.png".to_string(),
    );
    assert_eq!(metadata.language_code, "de");
    assert_eq!(metadata.country_code, "AT");
    assert_eq!(metadata.charset, "latin1");
    assert_eq!(metadata.description, "d");
    assert_eq!(metadata.project, "p");
    assert_eq!(metadata.author, "a");
    assert_eq!(metadata.twitter.username, "@t");
    assert_eq!(metadata.home_url, "h");
    assert_eq!(metadata.keywords, ["k1", "k2"]);
    assert_eq!(metadata.theme_color, "#000");
    assert_eq!(metadata.social_image, "s.png");
}

#[test]
fn metadata_with_defaults_splits_the_keywords() {
    let metadata = Metadata::new_with_defaults("d", "p", "h", "rust,web, verified,", "#fff", "i");
    assert_eq!(metadata.language_code, "en");
    assert_eq!(metadata.country_code, "US");
    assert_eq!(metadata.charset, "utf-8");
    assert_eq!(metadata.description, "d");
    assert_eq!(metadata.project, "p");
    assert_eq!(metadata.author, "Todd Everett Griffin");
    assert_eq!(metadata.twitter.username, "@goddtriffin");
    assert_eq!(metadata.home_url, "h");
    assert_eq!(metadata.keywords, ["rust", "web", " verified", ""]);
    assert_eq!(metadata.theme_color, "#fff");
    assert_eq!(metadata.social_image, "i");
    assert_eq!(Metadata::new_with_defaults("", "", "", "", "", "").keywords, [""]);
}

#[test]
fn template_data_of_the_site() {
    let buster = buster_with_social_image();
    let data = TemplateData::new(settings_in("production"), &buster, 2031);
    assert_eq!(data.metadata.language_code, "en");
    assert_eq!(data.metadata.country_code, "US");
    assert_eq!(data.metadata.charset, "utf-8");
    assert_eq!(data.metadata.description, "A project.");
    assert_eq!(data.metadata.project, "Project");
    assert_eq!(data.metadata.author, "Todd Everett Griffin");
    assert_eq!(data.metadata.twitter.username, "@goddtriffin");
    assert_eq!(data.metadata.home_url, "https://example.org");
    assert_eq!(data.metadata.keywords, ["rust", "web", " verified"]);
    assert_eq!(data.metadata.theme_color, "#f7cb64");
    assert_eq!(
        data.metadata.social_image,
        "/static/image/social/todo.c3fcd3d76192e4007dfb496cca67e13b.webp"
    );
    assert_eq!(data.footer.copyright.start, "1998");
    assert_eq!(data.footer.copyright.end, "2031");
    assert!(data.page.is_none());
    let names: Vec<&str> = data.social_media.iter().map(|p| p.name.as_str()).collect();
    assert_eq!(
        names,
        ["Twitter", "Instagram", "Facebook", "YouTube", "Github", "Stack Overflow", "Reddit"]
    );
    assert_eq!(data.social_media[3].link, "https://www.youtube.com/channel/UC1YNQd3SqLkl2CjwbvJBYoQ");
    assert_eq!(data.social_media[6].link, "https://www.reddit.com/user/goddtriffin");
    assert_eq!(data.cache_buster, buster.get_cache());
}

#[test]
fn template_data_without_the_social_image_in_the_table() {
    let data = TemplateData::new(settings_in("development"), &CacheBuster::new("static"), 1998);
    assert_eq!(data.metadata.social_image, "/static/image/social/todo.webp");
    assert!(data.cache_buster.is_empty());
    assert_eq!(data.footer.copyright.end, "1998");
}

#[test]
fn rendering_chooses_the_page_and_nothing_else() {
    let buster = buster_with_social_image();
    let data = TemplateData::new(settings_in("production"), &buster, 2031);
    let page = Page::new("404".to_string(), "/404".to_string(), Vec::new(), Vec::new());
    let data = data.render(page);
    assert_eq!(data.page.as_ref().map(|p| p.url.as_str()), Some("/404"));
    assert_eq!(data.metadata.project, "Project");
    assert_eq!(data.footer.copyright.end, "2031");
    assert_eq!(data.social_media.len(), 7);
    assert_eq!(data.cache_buster.len(), 1);
    let data = data.render(Page::new("Home".to_string(), "/".to_string(), Vec::new(), Vec::new()));
    assert_eq!(data.page.map(|p| p.display_name), Some("Home".to_string()));
}

#[test]
fn page_views_are_counted_for_the_site_in_production_only() {
    let payload = RequestPayload {
        user_agent: "agent".to_string(),
        url: "https://example.org/".to_string(),
        referrer: "https://elsewhere.org/".to_string(),
        screen_width: 1920,
    };
    let mut headers = HeaderMap::new();
    headers.insert("x-forwarded-for", HeaderValue::from_static("203.0.113.7, 10.1.1.1"));
    let event = pageview_event(&headers, &settings_in("production"), "10.0.0.1", &payload);
    assert_eq!(event.domain, "example.org");
    assert_eq!(event.name, "pageview");
    assert_eq!(event.url, "https://example.org/");
    assert_eq!(event.referrer, "https://elsewhere.org/");
    assert_eq!(event.screen_width, 1920);
    assert_eq!(event.user_agent, "agent");
    assert_eq!(event.client_ip, "203.0.113.7");
    let event = pageview_event(&HeaderMap::new(), &settings_in("development"), "10.0.0.1", &payload);
    assert_eq!(event.domain, "test.toddgriffin.me");
    assert_eq!(event.client_ip, "10.0.0.1");
}

#[test]
fn the_status_says_whether_the_view_was_taken() {
    assert_eq!(analytics_status(true), 200);
    assert_eq!(analytics_status(false), 500);
}

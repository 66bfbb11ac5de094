//! The pages that are put together for a request.

use vstd::prelude::*;

verus! {

/// What stands before the rankings on the page for the administrator.
pub const ADMIN_START: &'static str = r#"
                                    <html>
                                        <head>
                                            <meta charset="UTF-8">
                                            <meta name="viewport" content="width=device-width, initial-scale=1.0">
                                            <title>LNKR</title>
                                            <link rel="stylesheet" href="style.css">
                                        </head>
                                        <body>
                                            <div class="container">
                                            <h1>Admin: Stats!</h1>
                                            <div class="white-container">
                                                "#;

/// What stands between the two rankings.
pub const ADMIN_MIDDLE: &'static str = r#"
                                                </br></br>
                                                "#;

/// What stands behind the rankings.
pub const ADMIN_END: &'static str = r#"
                                            </div></div>
                                        </body>
                                    </html>"#;

/// What stands before the short key on the page for a shortened link.
pub const SHORT_START: &'static str = r#"
    <html>

    <head>
        <meta charset="UTF-8">
        <meta name="viewport" content="width=device-width, initial-scale=1.0">
        <title>LNKR</title>
        <link rel="stylesheet" href="style.css">
    </head>

    <body>
        <div class="container">
            <h1>Your shortened URL!</h1>
            <div class="forum-form">
                <a href=https://lnkr.lol/"#;

/// What stands between the short key as an address and as text.
pub const SHORT_MIDDLE: &'static str = r#">https://lnkr.lol/"#;

/// What stands between the short key and the full URL.
pub const LONG_START: &'static str = r#"</a> => <a href="#;

/// What stands between the full URL as an address and as text.
pub const LONG_MIDDLE: &'static str = r#">"#;

/// What stands behind the full URL.
pub const LONG_END: &'static str = r#"</a>
            </div>
        </div>
    </body>

    </html>
                    "#;

/// The page for the administrator, with the two rankings.
pub open spec fn admin_page(recent: Seq<char>, visited: Seq<char>) -> Seq<char> {
    ADMIN_START@ + recent + ADMIN_MIDDLE@ + visited + ADMIN_END@
}

/// Puts together the page for the administrator.
pub fn write_admin_page(recent: &str, visited: &str) -> (page: String)
    ensures
        page@ == admin_page(recent@, visited@),
{
    let mut page: String = ADMIN_START.to_owned();
    page.append(recent);
    page.append(ADMIN_MIDDLE);
    page.append(visited);
    page.append(ADMIN_END);
    page
}

/// The page that shows a short link and the full URL that it leads to.
pub open spec fn link_page(key: Seq<char>, url: Seq<char>) -> Seq<char> {
    SHORT_START@ + key + SHORT_MIDDLE@ + key + LONG_START@ + url + LONG_MIDDLE@ + url + LONG_END@
}

/// Puts together the page that shows a short link and the full URL that it leads to.
pub fn write_link_page(key: &str, url: &str) -> (page: String)
    ensures
        page@ == link_page(key@, url@),
{
    let mut page: String = SHORT_START.to_owned();
    page.append(key);
    page.append(SHORT_MIDDLE);
    page.append(key);
    page.append(LONG_START);
    page.append(url);
    page.append(LONG_MIDDLE);
    page.append(url);
    page.append(LONG_END);
    page
}

} // verus!

//! The description, links, licence and dependencies of one package, read from the
//! registry record or `brew info` output.

use vstd::prelude::*;
use crate::command::{CommandOutcome, ManagerCommand, OutcomeV};
use crate::json::{
    clone_opt, get_at, get_key, json_parse, parse_json_text, text_of, text_opt, text_view, then_at, then_key,
    view_opt, Json, JsonV,
};
use crate::latest::{brew_info_command, crates_io_url, crates_url, pypi_json_url, pypi_url};
use crate::text::same_text;

verus! {

/// Where a record comes from, and so how it is laid out.
#[derive(PartialEq, Eq, Structural, Clone, Copy)]
pub enum DetailsFormat {
    /// The npm registry.
    Npm,
    /// PyPI.
    PyPI,
    /// crates.io.
    Crates,
    /// `brew info --json`.
    Brew,
}

/// How to obtain the record of a package.
pub enum DetailsSource {
    /// Fetch `url` and read the record in `format`.
    Web { url: String, format: DetailsFormat },
    /// Run `command` and read its output as a `brew info` record.
    Command(ManagerCommand),
}

/// `https://registry.npmjs.org/<package>`.
pub open spec fn npm_registry_url(package: Seq<char>) -> Seq<char> {
    "https://registry.npmjs.org/"@ + package
}

/// The error text for a manager whose records are not read.
pub open spec fn details_unsupported_text() -> Seq<char> {
    "Manager not supported yet"@
}

/// The plain content of a `DetailsSource`.
pub enum SourceV {
    Web(Seq<char>, DetailsFormat),
    Command((Seq<char>, Seq<Seq<char>>)),
}

impl View for DetailsSource {
    type V = SourceV;

    open spec fn view(&self) -> SourceV {
        match self {
            DetailsSource::Web { url, format } => SourceV::Web(url@, *format),
            DetailsSource::Command(c) => SourceV::Command(c@),
        }
    }
}

/// Where the record of `package` under `manager` is found: npm, pip and pip3,
/// and cargo records are fetched from their registries, brew's come from
/// `brew info`; other managers have none.
pub open spec fn details_source_of(manager: Seq<char>, package: Seq<char>) -> Option<SourceV> {
    if manager == "npm"@ {
        Some(SourceV::Web(npm_registry_url(package), DetailsFormat::Npm))
    } else if manager == "pip"@ || manager == "pip3"@ {
        Some(SourceV::Web(pypi_url(package), DetailsFormat::PyPI))
    } else if manager == "cargo"@ {
        Some(SourceV::Web(crates_url(package), DetailsFormat::Crates))
    } else if manager == "brew"@ {
        Some(SourceV::Command(("brew"@, seq!["info"@, package, "--json"@])))
    } else {
        None
    }
}

/// Where the record of `package` under `manager` is found, or the error text for
/// a manager whose records are not read.
pub fn details_source(manager: &str, package: &str) -> (r: Result<DetailsSource, String>)
    ensures
        match r {
            Ok(src) => details_source_of(manager@, package@) == Some(src@),
            Err(e) => details_source_of(manager@, package@) is None && e@
                == details_unsupported_text(),
        },
{
    if same_text(manager, "npm") {
        Ok(
            DetailsSource::Web {
                url: "https://registry.npmjs.org/".to_owned().concat(package),
                format: DetailsFormat::Npm,
            },
        )
    } else if same_text(manager, "pip") || same_text(manager, "pip3") {
        Ok(DetailsSource::Web { url: pypi_json_url(package), format: DetailsFormat::PyPI })
    } else if same_text(manager, "cargo") {
        Ok(DetailsSource::Web { url: crates_io_url(package), format: DetailsFormat::Crates })
    } else if same_text(manager, "brew") {
        Ok(DetailsSource::Command(brew_info_command(package)))
    } else {
        Err("Manager not supported yet".to_owned())
    }
}

/// The document `brew info --json` printed, or the error: the parse error where
/// its output is no JSON, its standard error where it failed, the start error
/// where it could not start.
pub fn brew_details_document(outcome: CommandOutcome) -> (r: Result<Json, String>)
    ensures
        match outcome@ {
            OutcomeV::Finished { success, stdout, stderr } => if success {
                match json_parse(stdout) {
                    Ok(d) => r matches Ok(j) && j@ == d,
                    Err(m) => r matches Err(e) && e@ == m,
                }
            } else {
                r matches Err(e) && e@ == stderr
            },
            OutcomeV::Failed(e) => r matches Err(m) && m@ == e,
        },
{
    match outcome {
        CommandOutcome::Finished { success, stdout, stderr } => if success {
            parse_json_text(stdout.as_str())
        } else {
            Err(stderr)
        },
        CommandOutcome::Failed(e) => Err(e),
    }
}

/// What is known of a package.
pub struct PackageDetails {
    pub name: String,
    pub description: Option<String>,
    pub homepage: Option<String>,
    pub changelog: Option<String>,
    pub repository: Option<String>,
    pub license: Option<String>,
    pub author: Option<String>,
    pub dependencies: Option<Json>,
    pub raw: Option<Json>,
}

/// The plain content of `PackageDetails`.
pub struct DetailsV {
    pub name: Seq<char>,
    pub description: Option<Seq<char>>,
    pub homepage: Option<Seq<char>>,
    pub changelog: Option<Seq<char>>,
    pub repository: Option<Seq<char>>,
    pub license: Option<Seq<char>>,
    pub author: Option<Seq<char>>,
    pub dependencies: Option<JsonV>,
    pub raw: Option<JsonV>,
}

impl View for PackageDetails {
    type V = DetailsV;

    open spec fn view(&self) -> DetailsV {
        DetailsV {
            name: self.name@,
            description: text_view(self.description),
            homepage: text_view(self.homepage),
            changelog: text_view(self.changelog),
            repository: text_view(self.repository),
            license: text_view(self.license),
            author: text_view(self.author),
            dependencies: view_opt(self.dependencies),
            raw: view_opt(self.raw),
        }
    }
}

/// A text member of an optional value.
pub open spec fn text_at(j: Option<JsonV>, key: Seq<char>) -> Option<Seq<char>> {
    text_of(then_key(j, key))
}

/// The version an npm record calls `latest` (the empty text where it names none).
pub open spec fn npm_latest_tag(doc: JsonV) -> Seq<char> {
    match text_of(then_key(get_key(doc, "dist-tags"@), "latest"@)) {
        Some(t) => t,
        None => Seq::empty(),
    }
}

/// What a record says of package `name`.
///
/// npm: the entry of `versions` for the `latest` dist-tag gives `description`,
/// `homepage`, `changelog`, `repository.url`, `license`, `author.name` and
/// `dependencies`, and is itself the raw record. PyPI: `info` gives `summary`,
/// `home_page`, `project_urls.Changelog`, `project_urls.Source`, `license`,
/// `author` and `requires_dist`, and is the raw record. crates.io: `crate` gives
/// `description`, `homepage`, `repository` and `license`, and is the raw record;
/// the dependencies are those of `versions[0]`; there is no changelog or author.
/// brew: the first element gives `desc`, `homepage`, `urls.changelog`,
/// `urls.stable`, `license` and `dependencies`, and is the raw record; there is no author.
pub open spec fn details_of(format: DetailsFormat, name: Seq<char>, doc: JsonV) -> DetailsV {
    match format {
        DetailsFormat::Npm => {
            let info = then_key(get_key(doc, "versions"@), npm_latest_tag(doc));
            DetailsV {
                name,
                description: text_at(info, "description"@),
                homepage: text_at(info, "homepage"@),
                changelog: text_at(info, "changelog"@),
                repository: text_at(then_key(info, "repository"@), "url"@),
                license: text_at(info, "license"@),
                author: text_at(then_key(info, "author"@), "name"@),
                dependencies: then_key(info, "dependencies"@),
                raw: info,
            }
        },
        DetailsFormat::PyPI => {
            let info = get_key(doc, "info"@);
            DetailsV {
                name,
                description: text_at(info, "summary"@),
                homepage: text_at(info, "home_page"@),
                changelog: text_at(then_key(info, "project_urls"@), "Changelog"@),
                repository: text_at(then_key(info, "project_urls"@), "Source"@),
                license: text_at(info, "license"@),
                author: text_at(info, "author"@),
                dependencies: then_key(info, "requires_dist"@),
                raw: info,
            }
        },
        DetailsFormat::Crates => {
            let info = get_key(doc, "crate"@);
            DetailsV {
                name,
                description: text_at(info, "description"@),
                homepage: text_at(info, "homepage"@),
                changelog: None,
                repository: text_at(info, "repository"@),
                license: text_at(info, "license"@),
                author: None,
                dependencies: then_key(then_at(get_key(doc, "versions"@), 0), "dependencies"@),
                raw: info,
            }
        },
        DetailsFormat::Brew => {
            let info = get_at(doc, 0);
            DetailsV {
                name,
                description: text_at(info, "desc"@),
                homepage: text_at(info, "homepage"@),
                changelog: text_at(then_key(info, "urls"@), "changelog"@),
                repository: text_at(then_key(info, "urls"@), "stable"@),
                license: text_at(info, "license"@),
                author: None,
                dependencies: then_key(info, "dependencies"@),
                raw: info,
            }
        },
    }
}

/// The member of a record that names a package's homepage.
pub open spec fn homepage_key(format: DetailsFormat) -> Seq<char> {
    match format {
        DetailsFormat::PyPI => "home_page"@,
        _ => "homepage"@,
    }
}

/// The details of a package are read out of one record, which they keep as raw:
/// the entry of the npm record for its `latest` version, the `info` object of a
/// PyPI record, the `crate` object of a crates.io record, the first element of a
/// brew record. Their homepage is the text of the homepage member of that record
/// (`home_page` on PyPI, `homepage` elsewhere), and so is there whenever that
/// member is a string, whatever the other members hold; their description and
/// licence are the texts of its description member (`summary` on PyPI, `desc` on
/// brew) and its `license` member; the repository is its `repository` member on
/// crates.io, `repository.url` on npm, `urls.stable` on brew and
/// `project_urls.Source` on PyPI; the changelog is `urls.changelog` on brew and
/// `project_urls.Changelog` on PyPI, and crates.io gives none; the author is
/// `author.name` on npm and `author` on PyPI, and crates.io and brew give none.
/// The name is the one asked about.
pub proof fn lemma_details_read_from_record(format: DetailsFormat, name: Seq<char>, doc: JsonV)
    ensures
        ({
            let d = details_of(format, name, doc);
            &&& d.name == name
            &&& format is Npm ==> d.raw == then_key(get_key(doc, "versions"@), npm_latest_tag(doc))
            &&& format is PyPI ==> d.raw == get_key(doc, "info"@)
            &&& format is Crates ==> d.raw == get_key(doc, "crate"@)
            &&& format is Brew ==> d.raw == get_at(doc, 0)
            &&& d.homepage == text_of(then_key(d.raw, homepage_key(format)))
            &&& (then_key(d.raw, homepage_key(format)) matches Some(JsonV::Str(h)) ==> d.homepage
                == Some(h))
            &&& d.license == text_of(then_key(d.raw, "license"@))
            &&& (format is Npm || format is Crates) ==> d.description == text_of(
                then_key(d.raw, "description"@),
            )
            &&& format is PyPI ==> d.description == text_of(then_key(d.raw, "summary"@))
            &&& format is Brew ==> d.description == text_of(then_key(d.raw, "desc"@))
            &&& format is Crates ==> d.repository == text_of(then_key(d.raw, "repository"@))
            &&& format is Brew ==> d.changelog == text_of(
                then_key(then_key(d.raw, "urls"@), "changelog"@),
            ) && d.repository == text_of(then_key(then_key(d.raw, "urls"@), "stable"@))
            &&& format is PyPI ==> d.changelog == text_of(
                then_key(then_key(d.raw, "project_urls"@), "Changelog"@),
            ) && d.repository == text_of(then_key(then_key(d.raw, "project_urls"@), "Source"@))
                && d.author == text_of(then_key(d.raw, "author"@))
            &&& format is Npm ==> d.repository == text_of(
                then_key(then_key(d.raw, "repository"@), "url"@),
            ) && d.author == text_of(then_key(then_key(d.raw, "author"@), "name"@))
            &&& (format is Crates || format is Brew) ==> d.author is None
            &&& format is Crates ==> d.changelog is None
        }),
{
}

/// The member `key` of an optional value.
fn key_of<'a>(j: Option<&'a Json>, key: &str) -> (r: Option<&'a Json>)
    ensures
        crate::json::view_ref(r) == then_key(crate::json::view_ref(j), key@),
{
    match j {
        Some(v) => v.get(key),
        None => None,
    }
}

/// The text of the member `key` of an optional value.
fn text_key(j: Option<&Json>, key: &str) -> (r: Option<String>)
    ensures
        text_view(r) == text_at(crate::json::view_ref(j), key@),
{
    text_opt(key_of(j, key))
}

/// What the record `doc`, laid out as `format`, says of package `name`.
pub fn package_details(format: DetailsFormat, name: String, doc: &Json) -> (r: PackageDetails)
    ensures
        r@ == details_of(format, name@, doc@),
{
    match format {
        DetailsFormat::Npm => {
            let empty: &str = "";
            proof {
                reveal_strlit("");
            }
            assert(empty@ =~= Seq::<char>::empty());
            let latest: &str = match key_of(doc.get("dist-tags"), "latest") {
                Some(t) => match t.as_text() {
                    Some(s) => s,
                    None => empty,
                },
                None => empty,
            };
            assert(latest@ == npm_latest_tag(doc@));
            let info = key_of(doc.get("versions"), latest);
            PackageDetails {
                name,
                description: text_key(info, "description"),
                homepage: text_key(info, "homepage"),
                changelog: text_key(info, "changelog"),
                repository: text_key(key_of(info, "repository"), "url"),
                license: text_key(info, "license"),
                author: text_key(key_of(info, "author"), "name"),
                dependencies: clone_opt(key_of(info, "dependencies")),
                raw: clone_opt(info),
            }
        },
        DetailsFormat::PyPI => {
            let info = doc.get("info");
            PackageDetails {
                name,
                description: text_key(info, "summary"),
                homepage: text_key(info, "home_page"),
                changelog: text_key(key_of(info, "project_urls"), "Changelog"),
                repository: text_key(key_of(info, "project_urls"), "Source"),
                license: text_key(info, "license"),
                author: text_key(info, "author"),
                dependencies: clone_opt(key_of(info, "requires_dist")),
                raw: clone_opt(info),
            }
        },
        DetailsFormat::Crates => {
            let info = doc.get("crate");
            let first_version = match doc.get("versions") {
                Some(v) => v.get_index(0),
                None => None,
            };
            PackageDetails {
                name,
                description: text_key(info, "description"),
                homepage: text_key(info, "homepage"),
                changelog: None,
                repository: text_key(info, "repository"),
                license: text_key(info, "license"),
                author: None,
                dependencies: clone_opt(key_of(first_version, "dependencies")),
                raw: clone_opt(info),
            }
        },
        DetailsFormat::Brew => {
            let info = doc.get_index(0);
            PackageDetails {
                name,
                description: text_key(info, "desc"),
                homepage: text_key(info, "homepage"),
                changelog: text_key(key_of(info, "urls"), "changelog"),
                repository: text_key(key_of(info, "urls"), "stable"),
                license: text_key(info, "license"),
                author: None,
                dependencies: clone_opt(key_of(info, "dependencies")),
                raw: clone_opt(info),
            }
        },
    }
}

} // verus!

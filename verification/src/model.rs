//! The record kinds of the snippet database: folders, tags and snippets,
//! keyed by unique id in a [`StorageData`].
//!
//! Each kind presents its fields to the evaluator as a [`Record`]: text
//! fields (and present text options) as text, everything else — numbers,
//! flags, timestamps, nested collections, absent options — as non-text
//! values that no condition matches.

use vstd::prelude::*;
use vstd::string::StringExecFns;
use crate::record::{Record, SpecField, Queryable};

verus! {

/// A folder of snippets.
#[allow(non_snake_case)]
#[derive(Debug)]
pub struct FolderModel {
    pub name: String,
    pub index: i32,
    pub parent_id: Option<String>,
    pub defaultLanguage: String,
    pub isOpen: bool,
    pub isSystem: bool,
    pub createdAt: i64,
    pub updatedAt: i64,
    pub id: String,
}

/// One fragment of a snippet's body.
#[allow(non_snake_case)]
#[derive(Debug)]
pub struct Content {
    pub label: String,
    pub language: String,
    pub value: String,
}

/// A snippet.
#[allow(non_snake_case)]
#[derive(Debug)]
pub struct SnippetModel {
    pub name: String,
    pub description: Option<String>,
    pub isDeleted: bool,
    pub isFavorites: bool,
    pub folderId: String,
    pub createdAt: i64,
    pub updatedAt: i64,
    pub tagsIds: Vec<String>,
    pub content: Vec<Content>,
    pub id: String,
}

/// A tag.
#[allow(non_snake_case)]
#[derive(Debug)]
pub struct TagModel {
    pub name: String,
    pub createdAt: i64,
    pub updatedAt: i64,
    pub id: String,
}

/// The whole database: keyed collections of folders, tags and snippets.
#[derive(Debug)]
pub struct StorageData {
    pub folders: Vec<(String, FolderModel)>,
    pub tags: Vec<(String, TagModel)>,
    pub snippets: Vec<(String, SnippetModel)>,
}

pub open spec fn opt_text_view(o: Option<String>) -> SpecField {
    match o {
        Option::Some(s) => SpecField::Text(s@),
        Option::None => SpecField::Other,
    }
}

impl Queryable for FolderModel {
    open spec fn record_view(&self) -> Seq<(Seq<char>, SpecField)> {
        seq![
            ("name"@, SpecField::Text(self.name@)),
            ("index"@, SpecField::Other),
            ("parent_id"@, opt_text_view(self.parent_id)),
            ("defaultLanguage"@, SpecField::Text(self.defaultLanguage@)),
            ("isOpen"@, SpecField::Other),
            ("isSystem"@, SpecField::Other),
            ("createdAt"@, SpecField::Other),
            ("updatedAt"@, SpecField::Other),
            ("id"@, SpecField::Text(self.id@)),
        ]
    }

    open spec fn id_view(&self) -> Seq<char> {
        self.id@
    }

    fn to_record(&self) -> (r: Record) {
        let mut r = Record::new();
        r.push_text(String::from_str("name"), self.name.clone());
        r.push_other(String::from_str("index"));
        match &self.parent_id {
            Option::Some(p) => r.push_text(String::from_str("parent_id"), p.clone()),
            Option::None => r.push_other(String::from_str("parent_id")),
        }
        r.push_text(String::from_str("defaultLanguage"), self.defaultLanguage.clone());
        r.push_other(String::from_str("isOpen"));
        r.push_other(String::from_str("isSystem"));
        r.push_other(String::from_str("createdAt"));
        r.push_other(String::from_str("updatedAt"));
        r.push_text(String::from_str("id"), self.id.clone());
        proof {
            assert(r@ =~= self.record_view());
        }
        r
    }

    fn id_string(&self) -> (r: String) {
        self.id.clone()
    }
}

impl Queryable for TagModel {
    open spec fn record_view(&self) -> Seq<(Seq<char>, SpecField)> {
        seq![
            ("name"@, SpecField::Text(self.name@)),
            ("createdAt"@, SpecField::Other),
            ("updatedAt"@, SpecField::Other),
            ("id"@, SpecField::Text(self.id@)),
        ]
    }

    open spec fn id_view(&self) -> Seq<char> {
        self.id@
    }

    fn to_record(&self) -> (r: Record) {
        let mut r = Record::new();
        r.push_text(String::from_str("name"), self.name.clone());
        r.push_other(String::from_str("createdAt"));
        r.push_other(String::from_str("updatedAt"));
        r.push_text(String::from_str("id"), self.id.clone());
        proof {
            assert(r@ =~= self.record_view());
        }
        r
    }

    fn id_string(&self) -> (r: String) {
        self.id.clone()
    }
}

impl Queryable for SnippetModel {
    open spec fn record_view(&self) -> Seq<(Seq<char>, SpecField)> {
        seq![
            ("name"@, SpecField::Text(self.name@)),
            ("description"@, opt_text_view(self.description)),
            ("isDeleted"@, SpecField::Other),
            ("isFavorites"@, SpecField::Other),
            ("folderId"@, SpecField::Text(self.folderId@)),
            ("createdAt"@, SpecField::Other),
            ("updatedAt"@, SpecField::Other),
            ("tagsIds"@, SpecField::Other),
            ("content"@, SpecField::Other),
            ("id"@, SpecField::Text(self.id@)),
        ]
    }

    open spec fn id_view(&self) -> Seq<char> {
        self.id@
    }

    fn to_record(&self) -> (r: Record) {
        let mut r = Record::new();
        r.push_text(String::from_str("name"), self.name.clone());
        match &self.description {
            Option::Some(d) => r.push_text(String::from_str("description"), d.clone()),
            Option::None => r.push_other(String::from_str("description")),
        }
        r.push_other(String::from_str("isDeleted"));
        r.push_other(String::from_str("isFavorites"));
        r.push_text(String::from_str("folderId"), self.folderId.clone());
        r.push_other(String::from_str("createdAt"));
        r.push_other(String::from_str("updatedAt"));
        r.push_other(String::from_str("tagsIds"));
        r.push_other(String::from_str("content"));
        r.push_text(String::from_str("id"), self.id.clone());
        proof {
            assert(r@ =~= self.record_view());
        }
        r
    }

    fn id_string(&self) -> (r: String) {
        self.id.clone()
    }
}

} // verus!

//! Engine tests: filtering keyed collections, id projection, and snippet
//! queries with folder and tag sub-queries.

use rs_masscode::engine::{
    execute_query, execute_query_ids, query_folders, query_tags, QueryEngine, QueryOutput,
};
use rs_masscode::engine::query_snippets as run_snippet_query;
use rs_masscode::model::{FolderModel, SnippetModel, StorageData, TagModel};
use rs_masscode::parse::parse_query;

fn folder(id: &str, name: &str, parent: Option<&str>) -> FolderModel {
    FolderModel {
        name: name.to_string(),
        index: 0,
        parent_id: parent.map(|p| p.to_string()),
        defaultLanguage: "plain_text".to_string(),
        isOpen: false,
        isSystem: false,
        createdAt: 0,
        updatedAt: 0,
        id: id.to_string(),
    }
}

fn tag(id: &str, name: &str) -> TagModel {
    TagModel {
        name: name.to_string(),
        createdAt: 0,
        updatedAt: 0,
        id: id.to_string(),
    }
}

fn snippet(id: &str, name: &str, folder_id: &str, tags: &[&str]) -> SnippetModel {
    SnippetModel {
        name: name.to_string(),
        description: None,
        isDeleted: false,
        isFavorites: false,
        folderId: folder_id.to_string(),
        createdAt: 0,
        updatedAt: 0,
        tagsIds: tags.iter().map(|t| t.to_string()).collect(),
        content: Vec::new(),
        id: id.to_string(),
    }
}

fn keyed<T>(items: Vec<T>, id_of: fn(&T) -> String) -> Vec<(String, T)> {
    items.into_iter().map(|t| (id_of(&t), t)).collect()
}

fn sample() -> StorageData {
    StorageData {
        folders: keyed(
            vec![
                folder("f1", "rust", None),
                folder("f2", "shell", Some("f1")),
                folder("f3", "python", None),
            ],
            |f| f.id.clone(),
        ),
        tags: keyed(
            vec![tag("t1", "scripts"), tag("t2", "setup"), tag("t3", "docs")],
            |t| t.id.clone(),
        ),
        snippets: keyed(
            vec![
                snippet("s1", "build", "f1", &["t1"]),
                snippet("s2", "deploy", "f2", &["t2", "t3"]),
                snippet("s3", "notes", "f3", &["t3"]),
                snippet("s4", "bench", "f1", &[]),
            ],
            |s| s.id.clone(),
        ),
    }
}

#[test]
fn execute_query_returns_matches_in_order() {
    let data = sample();
    let expr = parse_query("name == shell").unwrap();
    let hits = execute_query(&data.folders, &expr);
    assert_eq!(hits.len(), 1);
    assert_eq!(hits[0].id, "f2");
    let expr = parse_query("name @CT o").unwrap();
    let hits = execute_query(&data.snippets, &expr);
    let names: Vec<&str> = hits.iter().map(|s| s.name.as_str()).collect();
    assert_eq!(names, ["deploy", "notes"]);
}

#[test]
fn execute_query_ids_projects_ids() {
    let data = sample();
    let expr = parse_query("name @SW s").unwrap();
    let ids = execute_query_ids(&data.tags, &expr);
    assert_eq!(ids, ["t1", "t2"]);
}

#[test]
fn query_folders_returns_records_or_ids() {
    let engine = QueryEngine::new(sample());
    match query_folders(&engine, "(name @EW n)", false).unwrap() {
        QueryOutput::Folders(v) => {
            assert_eq!(v.len(), 1);
            assert_eq!(v[0].name, "python");
        }
        _ => panic!("expected folder records"),
    }
    match query_folders(&engine, "(name @EW n)", true).unwrap() {
        QueryOutput::Ids(v) => assert_eq!(v, ["f3"]),
        _ => panic!("expected ids"),
    }
}

#[test]
fn query_tags_rejects_malformed_queries() {
    let engine = QueryEngine::new(sample());
    assert!(query_tags(&engine, "name @@ x", true).is_err());
    assert!(query_tags(&engine, "(name == a", false).is_err());
}

#[test]
fn query_snippets() {
    // Snippets carrying a tag whose name starts with "s": t1 (scripts)
    // and t2 (setup), so s1 and s2 match.
    let engine = QueryEngine::new(sample());
    let tag_query = String::from("(name @SW s)");
    match run_snippet_query(&engine, "name @CT e", true, None, Some(&tag_query)).unwrap() {
        QueryOutput::Ids(v) => assert_eq!(v, ["s2"]),
        _ => panic!("expected ids"),
    }
    match run_snippet_query(&engine, "id @SW s", true, None, Some(&tag_query)).unwrap() {
        QueryOutput::Ids(v) => assert_eq!(v, ["s1", "s2"]),
        _ => panic!("expected ids"),
    }
}

#[test]
fn query_snippets_folder_filter() {
    let engine = QueryEngine::new(sample());
    let folder_query = String::from("name == rust");
    match run_snippet_query(&engine, "id @SW s", false, Some(&folder_query), None).unwrap() {
        QueryOutput::Snippets(v) => {
            let ids: Vec<&str> = v.iter().map(|s| s.id.as_str()).collect();
            assert_eq!(ids, ["s1", "s4"]);
        }
        _ => panic!("expected snippet records"),
    }
}

#[test]
fn query_snippets_tag_one_of_scenario() {
    // Snippets holding tag t1 or t2, selected by a tag sub-query on ids.
    let engine = QueryEngine::new(sample());
    let tag_query = String::from("id @OO [t1,t2]");
    match run_snippet_query(&engine, "id @SW s", true, None, Some(&tag_query)).unwrap() {
        QueryOutput::Ids(v) => assert_eq!(v, ["s1", "s2"]),
        _ => panic!("expected ids"),
    }
}

#[test]
fn collection_valued_field_fails_closed_in_the_evaluator() {
    // tagsIds is a collection, not text: as a bare condition it matches
    // nothing; tag membership goes through the tag sub-query instead.
    let engine = QueryEngine::new(sample());
    match run_snippet_query(&engine, "tagsIds @OO [t1,t2]", true, None, None).unwrap() {
        QueryOutput::Ids(v) => assert!(v.is_empty()),
        _ => panic!("expected ids"),
    }
}

#[test]
fn query_snippets_propagates_sub_query_errors() {
    let engine = QueryEngine::new(sample());
    let bad = String::from("name ==");
    assert!(run_snippet_query(&engine, "id @SW s", true, Some(&bad), None).is_err());
    assert!(run_snippet_query(&engine, "id @SW s", true, None, Some(&bad)).is_err());
    assert!(run_snippet_query(&engine, "name ==", true, None, None).is_err());
}

#[test]
fn empty_collections_give_empty_matches() {
    let engine = QueryEngine::new(StorageData {
        folders: Vec::new(),
        tags: Vec::new(),
        snippets: Vec::new(),
    });
    match query_folders(&engine, "(name == x)", false).unwrap() {
        QueryOutput::Folders(v) => assert!(v.is_empty()),
        _ => panic!("expected folder records"),
    }
    match run_snippet_query(&engine, "(name == x)", true, None, None).unwrap() {
        QueryOutput::Ids(v) => assert!(v.is_empty()),
        _ => panic!("expected ids"),
    }
}

#[test]
fn empty_folder_match_set_excludes_all_snippets() {
    let engine = QueryEngine::new(sample());
    let folder_query = String::from("name == nosuch");
    match run_snippet_query(&engine, "id @SW s", true, Some(&folder_query), None).unwrap() {
        QueryOutput::Ids(v) => assert!(v.is_empty()),
        _ => panic!("expected ids"),
    }
}

//! Tests for project detection and component resolution.

use std::str::FromStr;
use unclog::input::{ChangeSetInput, ChangeSetSectionInput, ChangelogInput, ComponentSectionInput, EntryInput};
use unclog::project::{ComponentLoader, Project, ProjectType};
use unclog::{Component, Config, Error};

struct FixedLoader {
    known: Vec<(String, Component)>,
}

impl ComponentLoader for FixedLoader {
    fn get_component(&mut self, name: &str) -> Result<Option<Component>, Error> {
        Ok(self
            .known
            .iter()
            .find(|(id, _)| id == name)
            .map(|(_, c)| Component {
                name: c.name.clone(),
                maybe_path: c.maybe_path.clone(),
            }))
    }
}

#[test]
fn project_type_autodetection() {
    assert!(matches!(
        ProjectType::autodetect("/some/project", true),
        Ok(ProjectType::Rust)
    ));
    let err = ProjectType::autodetect("/some/project", false).unwrap_err();
    assert!(matches!(err, Error::CannotAutodetectProjectType(p) if p == "/some/project"));
    assert!(matches!(
        ProjectType::from_str("rust"),
        Ok(ProjectType::Rust)
    ));
    assert!(ProjectType::from_str("fortran").is_err());
    assert_eq!("Rust", ProjectType::Rust.name());
}

#[test]
fn project_resolves_components_through_its_loader() {
    let input = ChangelogInput {
        unreleased: Some(ChangeSetInput {
            summary: None,
            sections: vec![ChangeSetSectionInput {
                id: "features".to_owned(),
                entries: vec![],
                component_sections: vec![ComponentSectionInput {
                    id: "engine".to_owned(),
                    entries: vec![EntryInput {
                        filename: "4-pistons.md".to_owned(),
                        details: "- Polish the pistons\n".to_owned(),
                    }],
                }],
            }],
        }),
        releases: vec![],
        prologue: None,
        epilogue: None,
    };
    let loader = FixedLoader {
        known: vec![(
            "engine".to_owned(),
            Component {
                name: "The Engine".to_owned(),
                maybe_path: Some("engine".to_owned()),
            },
        )],
    };
    let project = Project::new_with_component_loader(".", loader);
    assert_eq!(".", project.path());
    let changelog = project.read_changelog(&Config::default(), &input).unwrap();
    let section = &changelog.maybe_unreleased.as_ref().unwrap().sections[0];
    assert_eq!("The Engine", section.component_sections[0].name);
    assert_eq!(
        Some("engine".to_owned()),
        section.component_sections[0].maybe_path
    );

    let empty_loader = FixedLoader { known: vec![] };
    let project = Project::new_with_component_loader(".", empty_loader);
    let err = project
        .read_changelog(&Config::default(), &input)
        .unwrap_err();
    assert!(matches!(err, Error::ComponentNotDefined(id) if id == "engine"));
}

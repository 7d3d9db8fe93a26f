//! Generated project documentation and the formats it can be exported to.
use vstd::prelude::*;

verus! {

/// Markdown documentation of a project with its three Mermaid diagrams.
#[derive(Debug, PartialEq, Eq)]
pub struct DocumentationBundle {
    pub project_name: String,
    pub markdown: String,
    pub folder_diagram: String,
    pub class_diagram: String,
    pub dependency_diagram: String,
}

impl Clone for DocumentationBundle {
    fn clone(&self) -> (r: Self)
        ensures
            r == *self,
    {
        DocumentationBundle {
            project_name: self.project_name.clone(),
            markdown: self.markdown.clone(),
            folder_diagram: self.folder_diagram.clone(),
            class_diagram: self.class_diagram.clone(),
            dependency_diagram: self.dependency_diagram.clone(),
        }
    }
}

/// The file formats documentation can be exported to.
#[derive(Debug, Clone, Copy, PartialEq, Eq, Structural)]
pub enum ExportFormat {
    Markdown,
    Html,
    Pdf,
}

} // verus!

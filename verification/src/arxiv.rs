//! This is the arxiv module, which defines the data structures for arXiv papers.
use vstd::prelude::*;

verus! {

/// This struct represents the arXiv paper entry in search results.
#[derive(Debug)]
pub struct ArxivPaperEntry {
    pub id: String,
    pub title: String,
    pub authors: Vec<String>,
    pub abstract_text: String,
}

/// The address of the abstract page of the paper with the given identifier.
pub open spec fn arxiv_abs_url(id: Seq<char>) -> Seq<char> {
    "https://arxiv.org/abs/"@ + id
}

/// The address of the PDF of the paper with the given identifier.
pub open spec fn arxiv_pdf_url(id: Seq<char>) -> Seq<char> {
    "https://arxiv.org/pdf/"@ + id + ".pdf"@
}

/// The address of the source archive of the paper with the given identifier.
pub open spec fn arxiv_src_url(id: Seq<char>) -> Seq<char> {
    "https://arxiv.org/src/"@ + id
}

impl ArxivPaperEntry {
    /// Create a new ArxivPaperEntry.
    pub fn new(id: String, title: String, authors: Vec<String>, abstract_text: String) -> (res:
        Self)
        ensures
            res.id == id,
            res.title == title,
            res.authors == authors,
            res.abstract_text == abstract_text,
    {
        Self { id, title, authors, abstract_text }
    }

    pub fn get_arxiv_url(&self) -> (res: String)
        ensures
            res@ == arxiv_abs_url(self.id@),
    {
        let mut url = String::from_str("https://arxiv.org/abs/");
        url.append(self.id.as_str());
        url
    }

    pub fn get_pdf_url(&self) -> (res: String)
        ensures
            res@ == arxiv_pdf_url(self.id@),
    {
        let mut url = String::from_str("https://arxiv.org/pdf/");
        url.append(self.id.as_str());
        url.append(".pdf");
        url
    }

    pub fn get_src_url(&self) -> (res: String)
        ensures
            res@ == arxiv_src_url(self.id@),
    {
        let mut url = String::from_str("https://arxiv.org/src/");
        url.append(self.id.as_str());
        url
    }
}

} // verus!

//! The front page of the site.

use vstd::prelude::*;
use vstd::string::StringExecFns;

verus! {

/// Which file to ask the host for.
#[derive(Debug)]
pub struct ArgsGetFile {
    pub uri: String,
    pub file_path: String,
}

/// One header of a response.
#[derive(Debug)]
pub struct Header {
    pub name: String,
    pub value: String,
}

/// A response to a page request.
#[derive(Debug)]
pub struct Response {
    pub data: Option<Vec<u8>>,
    pub headers: Option<Vec<Header>>,
}

/// Whether `response` serves `data` as an HTML page.
pub open spec fn is_html_page(response: Response, data: Vec<u8>) -> bool {
    &&& response.data == Some(data)
    &&& response.headers matches Some(headers)
    &&& headers@.len() == 1
    &&& headers@[0].name@ == "Content-Type"@
    &&& headers@[0].value@ == "text/html"@
}

/// The file that holds the front page.
pub fn index_file() -> (file: ArgsGetFile)
    ensures
        file.uri@ == "wrap://ens/site.pokablocks.eth"@,
        file.file_path@ == "site/index.html"@,
{
    ArgsGetFile {
        uri: String::from_str("wrap://ens/site.pokablocks.eth"),
        file_path: String::from_str("site/index.html"),
    }
}

/// The front page, from what the host returned for `index_file()`: the
/// file as an HTML page where there is one, and no response where the file
/// is missing or could not be read.
pub fn index(index_html: Result<Option<Vec<u8>>, String>) -> (response: Option<Response>)
    ensures
        match index_html {
            Ok(Some(data)) => response matches Some(r) && is_html_page(r, data),
            _ => response is None,
        },
{
    match index_html {
        Ok(index_html) => {
            match index_html {
                Some(index_html) => {
                    let mut headers: Vec<Header> = Vec::new();
                    headers.push(
                        Header {
                            name: String::from_str("Content-Type"),
                            value: String::from_str("text/html"),
                        },
                    );
                    Some(Response { data: Some(index_html), headers: Some(headers) })
                },
                None => None,
            }
        },
        Err(_) => None,
    }
}

} // verus!

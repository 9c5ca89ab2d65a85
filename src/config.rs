use vstd::prelude::*;
use vstd::string::*;

verus! {

/// Settings of the recorder.
pub struct Config {
    /// Directory where recordings are saved.
    pub output_directory: String,
}

/// `dir` followed by `name`, with one `/` between them unless `dir` is
/// empty or already ends with one.
pub open spec fn joined(dir: Seq<char>, name: Seq<char>) -> Seq<char> {
    if dir.len() == 0 || dir.last() == '/' {
        dir + name
    } else {
        dir + seq!['/'] + name
    }
}

impl Config {
    /// The path of the recording `filename` inside the output directory.
    pub fn recording_path(&self, filename: &str) -> (r: String)
        ensures
            r@ == joined(self.output_directory@, filename@),
    {
        let dir: &str = self.output_directory.as_str();
        let n = dir.unicode_len();
        let mut path = dir.to_owned();
        if n > 0 && dir.get_char(n - 1) != '/' {
            let slash = "/";
            proof {
                reveal_strlit("/");
            }
            assert(slash@ =~= seq!['/']);
            path.append(slash);
        }
        path.append(filename);
        path
    }
}

} // verus!

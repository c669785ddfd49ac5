use vstd::prelude::*;

verus! {

/// The run's settings: the file to scan.
pub struct Config {
    pub filename: String,
}

impl Config {
    /// Reads the settings from the command line: the first argument after the
    /// program's name is the file to scan.
    pub fn new(args: Vec<String>) -> (r: Result<Config, &'static str>)
        ensures
            args@.len() >= 2 <==> r is Ok,
            r matches Ok(c) ==> c.filename@ == args@[1]@,
            r matches Err(e) ==> e@ == "Didn't get a filename"@,
    {
        if args.len() < 2 {
            proof {
                reveal_strlit("Didn't get a filename");
            }
            return Err("Didn't get a filename");
        }
        let filename = args[1].clone();
        Ok(Config { filename })
    }
}

} // verus!

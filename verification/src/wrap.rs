//! Finding the name of a game in the command line by which the Heroic
//! launcher starts it.

use vstd::prelude::*;

verus! {

/// Why no game name was found.
#[derive(Debug)]
pub enum WrapError {
    /// The command line or the game's files do not say which game it is.
    CommandNotRecognized { msg: String },
    /// The command line ends before the game's directory and its id.
    MissingArguments,
}

/// What a launch command says of the game: its directory and its id.
#[derive(Debug)]
pub struct HeroicLaunch {
    pub game_dir: String,
    pub game_id: String,
}

/// What was read of the game's files.
#[derive(Debug)]
pub enum GogInfo {
    /// The content of the file `gameinfo` of a native game, found at `path`.
    Native { path: String, content: String },
    /// The name entry of the file `goggame-<id>.info` of a Windows game,
    /// looked for at `path`, or why it could not be read.
    Windows { path: String, name: Result<String, String> },
}

/// Whether `text` ends with `tail`.
pub open spec fn ends_with(text: Seq<char>, tail: Seq<char>) -> bool {
    tail.len() <= text.len() && text.subrange(text.len() - tail.len(), text.len() as int) == tail
}

/// Whether `text` ends with `tail`.
pub fn text_ends_with(text: &str, tail: &str) -> (ends: bool)
    ensures
        ends == ends_with(text@, tail@),
{
    let n = text.unicode_len();
    let m = tail.unicode_len();
    if m > n {
        return false;
    }
    let mut k: usize = 0;
    while k < m
        invariant
            k <= m,
            m <= n,
            n == text@.len(),
            m == tail@.len(),
            forall|j: int| 0 <= j < k ==> text@[n - m + j] == tail@[j],
        decreases m - k,
    {
        if text.get_char(n - m + k) != tail.get_char(k) {
            proof {
                assert(text@.subrange(n - m, n as int)[k as int] == text@[n - m + k]);
            }
            return false;
        }
        k += 1;
    }
    proof {
        assert(text@.subrange(n - m, n as int) =~= tail@);
    }
    true
}

/// Whether `index` is the first place from `from` on at which a command
/// ends with `tail`.
pub open spec fn first_ending(commands: Seq<String>, tail: Seq<char>, from: int, index: int) -> bool {
    &&& 0 <= from <= index < commands.len()
    &&& ends_with(commands[index]@, tail)
    &&& forall|j: int| from <= j < index ==> !ends_with((#[trigger] commands[j])@, tail)
}

/// Whether no command from `from` on ends with `tail`.
pub open spec fn none_ending(commands: Seq<String>, tail: Seq<char>, from: int) -> bool {
    forall|j: int| 0 <= from <= j < commands.len() ==> !ends_with((#[trigger] commands[j])@, tail)
}

fn find_ending(commands: &Vec<String>, tail: &str, from: usize) -> (found: Option<usize>)
    ensures
        match found {
            Some(index) => first_ending(commands@, tail@, from as int, index as int),
            None => none_ending(commands@, tail@, from as int),
        },
{
    let mut i: usize = from;
    while i < commands.len()
        invariant
            from <= i,
            forall|j: int| from <= j < i && j < commands@.len() ==> !ends_with((#[trigger] commands@[j])@, tail@),
        decreases commands@.len() - i,
    {
        if text_ends_with(commands[i].as_str(), tail) {
            return Some(i);
        }
        i += 1;
    }
    None
}

/// What the commands say of a launch through `gogdl`.
///
/// The launcher is recognized by the first command that ends with
/// `gogdl`, the launch by the first command after it that ends with
/// `launch`; the two commands that follow are the game's directory and id.
pub open spec fn launch_outcome(commands: Seq<String>, outcome: Result<HeroicLaunch, WrapError>) -> bool {
    match outcome {
        Ok(launch) => exists|g: int, l: int|
            #![trigger first_ending(commands, "gogdl"@, 0, g), first_ending(commands, "launch"@, g + 1, l)]
            first_ending(commands, "gogdl"@, 0, g) && first_ending(commands, "launch"@, g + 1, l) && l + 2
                < commands.len() && launch.game_dir@ == commands[l + 1]@ && launch.game_id@ == commands[l
                + 2]@,
        Err(WrapError::MissingArguments) => exists|g: int, l: int|
            #![trigger first_ending(commands, "gogdl"@, 0, g), first_ending(commands, "launch"@, g + 1, l)]
            first_ending(commands, "gogdl"@, 0, g) && first_ending(commands, "launch"@, g + 1, l) && l + 2
                >= commands.len(),
        Err(WrapError::CommandNotRecognized { msg }) => (none_ending(commands, "gogdl"@, 0) && msg@
            == "unknown launcher in command line parameters"@) || (exists|g: int| #[trigger]
            first_ending(commands, "gogdl"@, 0, g) && none_ending(commands, "launch"@, g + 1) && msg@
                == "gogdl launch parameter not found"@),
    }
}

/// Reads the game's directory and id off the commands of a launch.
pub fn heroic_launch(commands: &Vec<String>) -> (outcome: Result<HeroicLaunch, WrapError>)
    ensures
        launch_outcome(commands@, outcome),
{
    let launcher = match find_ending(commands, "gogdl", 0) {
        Some(index) => index,
        None => {
            return Err(
                WrapError::CommandNotRecognized { msg: "unknown launcher in command line parameters".to_owned() },
            );
        },
    };
    assert(launcher < commands.len());
    let launch = match find_ending(commands, "launch", launcher + 1) {
        Some(index) => index,
        None => {
            return Err(WrapError::CommandNotRecognized { msg: "gogdl launch parameter not found".to_owned() });
        },
    };
    if commands.len() - launch <= 2 {
        return Err(WrapError::MissingArguments);
    }
    Ok(HeroicLaunch { game_dir: commands[launch + 1].clone(), game_id: commands[launch + 2].clone() })
}

/// Where a native game keeps its name: the file `gameinfo` in its directory.
pub open spec fn native_info_text(game_dir: Seq<char>) -> Seq<char> {
    game_dir + "/gameinfo"@
}

/// Where a Windows game keeps its name: the file `goggame-<id>.info` in
/// its directory.
pub open spec fn windows_info_text(game_dir: Seq<char>, game_id: Seq<char>) -> Seq<char> {
    game_dir + "/goggame-"@ + game_id + ".info"@
}

impl HeroicLaunch {
    /// The path of the file that names a native game.
    pub fn native_info_path(&self) -> (path: String)
        ensures
            path@ == native_info_text(self.game_dir@),
    {
        let mut path = self.game_dir.clone();
        path.append("/gameinfo");
        path
    }

    /// The path of the file that names a Windows game.
    pub fn windows_info_path(&self) -> (path: String)
        ensures
            path@ == windows_info_text(self.game_dir@, self.game_id@),
    {
        let mut path = self.game_dir.clone();
        path.append("/goggame-");
        path.append(self.game_id.as_str());
        path.append(".info");
        path
    }
}

/// The place of the first line feed in `text`, or its length where it has none.
pub open spec fn line_end(text: Seq<char>) -> int
    decreases text.len(),
{
    if text.len() == 0 || text[0] == '\n' {
        0
    } else {
        1 + line_end(text.drop_first())
    }
}

/// The first line of `text`: what stands before the first line feed,
/// without a carriage return just before it; the whole text where it has
/// no line feed.
pub open spec fn first_line(text: Seq<char>) -> Seq<char> {
    let end = line_end(text);
    if end < text.len() && end > 0 && text[end - 1] == '\r' {
        text.take(end - 1)
    } else {
        text.take(end)
    }
}

proof fn lemma_line_end(text: Seq<char>, upto: int)
    requires
        0 <= upto <= text.len(),
        forall|j: int| 0 <= j < upto ==> text[j] != '\n',
        upto == text.len() || text[upto] == '\n',
    ensures
        line_end(text) == upto,
    decreases upto,
{
    if upto > 0 {
        let rest = text.drop_first();
        assert forall|j: int| 0 <= j < upto - 1 implies rest[j] != '\n' by {
            assert(rest[j] == text[j + 1]);
        }
        lemma_line_end(rest, upto - 1);
    }
}

/// The first line of `text`.
pub fn first_line_of(text: &str) -> (line: String)
    ensures
        line@ == first_line(text@),
{
    let n = text.unicode_len();
    let mut end: usize = 0;
    while end < n && text.get_char(end) != '\n'
        invariant
            end <= n,
            n == text@.len(),
            forall|j: int| 0 <= j < end ==> text@[j] != '\n',
        decreases n - end,
    {
        end += 1;
    }
    proof {
        lemma_line_end(text@, end as int);
    }
    let cut = if end < n && end > 0 && text.get_char(end - 1) == '\r' {
        end - 1
    } else {
        end
    };
    let line = text.substring_char(0, cut).to_owned();
    assert(line@ =~= first_line(text@));
    line
}

/// The name that the game's files give, or why they give none.
pub open spec fn name_outcome(info: GogInfo, outcome: Result<String, WrapError>) -> bool {
    match info {
        GogInfo::Native { path, content } => if first_line(content@).len() > 0 {
            outcome matches Ok(name) && name@ == first_line(content@)
        } else {
            outcome matches Err(WrapError::CommandNotRecognized { msg }) && msg@ == "Error reading "@ + path@
        },
        GogInfo::Windows { path, name: Ok(found) } => if found@.len() > 0 {
            outcome matches Ok(name) && name@ == found@
        } else {
            outcome matches Err(WrapError::CommandNotRecognized { msg }) && msg@ == "Error reading "@ + path@
                + ", no name entry found."@
        },
        GogInfo::Windows { path, name: Err(cause) } => outcome matches Err(
            WrapError::CommandNotRecognized { msg },
        ) && msg@ == "Error reading "@ + path@ + ": "@ + cause@,
    }
}

/// The name that the game's files give: the first line of a native
/// game's `gameinfo`, or the name entry of a Windows game's info file.
/// An empty name is no name.
pub fn game_name_from_info(info: &GogInfo) -> (outcome: Result<String, WrapError>)
    ensures
        name_outcome(*info, outcome),
{
    match info {
        GogInfo::Native { path, content } => {
            let name = first_line_of(content.as_str());
            if name.as_str().unicode_len() == 0 {
                let mut msg = "Error reading ".to_owned();
                msg.append(path.as_str());
                Err(WrapError::CommandNotRecognized { msg })
            } else {
                Ok(name)
            }
        },
        GogInfo::Windows { path, name } => match name {
            Ok(found) => {
                if found.as_str().unicode_len() == 0 {
                    let mut msg = "Error reading ".to_owned();
                    msg.append(path.as_str());
                    msg.append(", no name entry found.");
                    Err(WrapError::CommandNotRecognized { msg })
                } else {
                    Ok(found.clone())
                }
            },
            Err(cause) => {
                let mut msg = "Error reading ".to_owned();
                msg.append(path.as_str());
                msg.append(": ");
                msg.append(cause.as_str());
                Err(WrapError::CommandNotRecognized { msg })
            },
        },
    }
}

/// The name of the game that the commands launch, given what was read of
/// the game's files.
///
/// The commands must be those of a launch through `gogdl`; where they
/// are not, that is the error, whatever the files say.
pub fn get_game_name_from_heroic_launch_commands(commands: &Vec<String>, info: &GogInfo) -> (outcome: Result<
    String,
    WrapError,
>)
    ensures
        match outcome {
            Ok(name) => (exists|launch: HeroicLaunch| launch_outcome(commands@, Ok(launch))) && name_outcome(
                *info,
                Ok(name),
            ),
            Err(error) => launch_outcome(commands@, Err(error)) || ((exists|launch: HeroicLaunch|
                launch_outcome(commands@, Ok(launch))) && name_outcome(*info, Err(error))),
        },
{
    match heroic_launch(commands) {
        Ok(launch) => game_name_from_info(info),
        Err(error) => Err(error),
    }
}

} // verus!

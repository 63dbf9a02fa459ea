//! The built-in commands: one handler per verb, each a pure function of its
//! arguments, the working directory, the piped input and the directory tree.

pub mod change_directory;
pub mod concatenate;
pub mod echo;
pub mod executable_files;
pub mod global_regular_expresion_print;
pub mod list_files;
pub mod make_director;
pub mod move_class;
pub mod remove_director;
pub mod remove_file;
pub mod users;
pub mod word_count;

pub mod pokeapi;
